use libbcachefs::super_block::{Field, SuperBlock, BCH_MAGIC};
use libbcachefs::BchError;

const EXAMPLE: [u8; 240] = [
    0x00, 0x00, 0x00, 0x00, 0x00, 0x00, 0x00, 0x00, 0x00, 0x00, 0x00, 0x00, 0x00, 0x00, 0x00,
    0x00, // csum
    0x34, 0x12, // version
    0x56, 0x34, // version min
    0x00, 0x00, 0x00, 0x00, // pad 4 bytes
    0xc6, 0x85, 0x73, 0xf6, 0x4e, 0x1a, 0x45, 0xca, 0x82, 0x65, 0xf5, 0x7f, 0x48, 0xba, 0x6d,
    0x81, // magic
    0x00, 0x00, 0x00, 0x00, 0x00, 0x00, 0x00, 0x00, 0x00, 0x00, 0x00, 0x00, 0x00, 0x00, 0x00,
    0x00, // uuid
    0x00, 0x00, 0x00, 0x00, 0x00, 0x00, 0x00, 0x00, 0x00, 0x00, 0x00, 0x00, 0x00, 0x00, 0x00,
    0x00, // user uuid
    0x00, 0x00, 0x00, 0x00, 0x00, 0x00, 0x00, 0x00, 0x00, 0x00, 0x00, 0x00, 0x00, 0x00, 0x00,
    0x00, 0x00, 0x00, 0x00, 0x00, 0x00, 0x00, 0x00, 0x00, 0x00, 0x00, 0x00, 0x00, 0x00, 0x00,
    0x00, 0x00, // label
    0x01, 0x00, 0x00, 0x00, 0x00, 0x00, 0x00, 0x00, // offset
    0x02, 0x00, 0x00, 0x00, 0x00, 0x00, 0x00, 0x00, // seq
    0x03, 0x00, // block size
    0x04, // dev index
    0x05, // nr devices
    0x06, 0x00, 0x00, 0x00, // u64s
    0x00, 0x00, 0x00, 0x00, 0x00, 0x00, 0x00, 0x00, // time base lo
    0x00, 0x00, 0x00, 0x00, // time base hi
    0x00, 0x00, 0x00, 0x00, // time base p
    0x07, 0x00, 0x00, 0x00, 0x00, 0x00, 0x00, 0x00, 0x08, 0x00, 0x00, 0x00, 0x00, 0x00, 0x00,
    0x00, 0x09, 0x00, 0x00, 0x00, 0x00, 0x00, 0x00, 0x00, 0x0a, 0x00, 0x00, 0x00, 0x00, 0x00,
    0x00, 0x00, 0x0b, 0x00, 0x00, 0x00, 0x00, 0x00, 0x00, 0x00, 0x0c, 0x00, 0x00, 0x00, 0x00,
    0x00, 0x00, 0x00, 0x0d, 0x00, 0x00, 0x00, 0x00, 0x00, 0x00, 0x00, 0x0e, 0x00, 0x00, 0x00,
    0x00, 0x00, 0x00, 0x00, // flags
    0x0f, 0x00, 0x00, 0x00, 0x00, 0x00, 0x00, 0x00, 0x10, 0x00, 0x00, 0x00, 0x00, 0x00, 0x00,
    0x00, // features
    0x11, 0x00, 0x00, 0x00, 0x00, 0x00, 0x00, 0x00, 0x12, 0x00, 0x00, 0x00, 0x00, 0x00, 0x00,
    0x00, // compat
];

#[test]
fn super_block_parse_simple() {
    let sb = SuperBlock::from(EXAMPLE.to_vec());
    assert_eq!(sb.version().unwrap(), 0x1234);
    assert_eq!(sb.version_min().unwrap(), 0x3456);
    assert_eq!(sb.magic().unwrap(), BCH_MAGIC);
    assert_eq!(sb.uuid().unwrap(), 0);
    assert_eq!(sb.user_uuid().unwrap(), 0);
    assert_eq!(*sb.label().unwrap().iter().max().unwrap(), 0);
    assert_eq!(sb.block_size().unwrap(), 3);
    assert_eq!(sb.flags_u64s().unwrap(), vec![7, 8, 9, 10, 11, 12, 13, 14]);
    assert_eq!(sb.features().unwrap(), vec![15, 16]);
    assert_eq!(sb.compat().unwrap(), vec![17, 18]);
}

#[test]
fn super_block_build_simple() {
    let data = vec![0x00; 244];
    let mut sb = SuperBlock::from(data);
    sb.set_version(0x1234).unwrap();
    sb.set_version_min(0x3456).unwrap();
    sb.set_magic().unwrap();
    assert_eq!(sb.magic().unwrap(), BCH_MAGIC);
    assert_eq!(sb.buffer[..40], EXAMPLE[..40]);
}

#[test]
fn scalar_fields_round_trip() {
    let mut sb = SuperBlock::from(vec![0u8; 1024]);
    sb.set_version(0xfffe).unwrap();
    assert_eq!(sb.version().unwrap(), 0xfffe);
    sb.set_version_min(1).unwrap();
    assert_eq!(sb.version_min().unwrap(), 1);
    sb.set_uuid(0x0123456789abcdef0011223344556677).unwrap();
    assert_eq!(sb.uuid().unwrap(), 0x0123456789abcdef0011223344556677);
    sb.set_user_uuid(u128::MAX).unwrap();
    assert_eq!(sb.user_uuid().unwrap(), u128::MAX);
    sb.set_block_size(0x8000).unwrap();
    assert_eq!(sb.block_size().unwrap(), 0x8000);
    sb.set_dev_idx(0xab).unwrap();
    assert_eq!(sb.device_index().unwrap(), 0xab);
    sb.set_nr_devices(0xcd).unwrap();
    assert_eq!(sb.nr_devices().unwrap(), 0xcd);
    sb.set_time_base_p(0xdeadbeef).unwrap();
    assert_eq!(sb.time_base_p().unwrap(), 0xdeadbeef);
    assert_eq!(sb.time_base_lo().unwrap(), 0);
    assert_eq!(sb.time_base_hi().unwrap(), 0);
}

#[test]
fn label_round_trip() {
    let mut sb = SuperBlock::from(vec![0u8; 1024]);
    let label = b"home pool".to_vec();
    sb.set_label(&label).unwrap();
    let read = sb.label().unwrap();
    assert_eq!(&read[..label.len()], &label[..]);
    assert!(read[label.len()..].iter().all(|b| *b == 0));
    // a label wider than the fixed area is rejected and changes nothing
    let before = sb.buffer.clone();
    let wide = vec![0x41u8; 33];
    assert_eq!(sb.set_label(&wide), Err(BchError::BufferTooSmall));
    assert_eq!(sb.buffer, before);
}

#[test]
fn getters_report_short_buffer() {
    let sb = SuperBlock::from(vec![0u8; 10]);
    assert_eq!(sb.version(), Err(BchError::BufferTooSmall));
    assert_eq!(sb.magic(), Err(BchError::BufferTooSmall));
    assert_eq!(sb.uuid(), Err(BchError::BufferTooSmall));
    assert_eq!(sb.label(), Err(BchError::BufferTooSmall));
    assert_eq!(sb.u64s(), Err(BchError::BufferTooSmall));
    assert_eq!(sb.flags_u64s(), Err(BchError::BufferTooSmall));
    let mut sb = SuperBlock::from(vec![0u8; 10]);
    assert_eq!(sb.set_version(1), Err(BchError::BufferTooSmall));
    assert_eq!(sb.set_uuid(1), Err(BchError::BufferTooSmall));
    assert_eq!(sb.set_dev_idx(1), Err(BchError::BufferTooSmall));
    assert_eq!(sb.buffer, vec![0u8; 10]);
}

#[test]
fn add_field_writes_header_and_payload() {
    let mut sb = SuperBlock::from(vec![0u8; 1024]);
    let payload = vec![0xaau8; 56];
    sb.add_field(Field::Members, &payload).unwrap();
    // header: (56 + 8) / 8 = 8 units, type code 1
    assert_eq!(&sb.buffer[752..756], &[8, 0, 0, 0]);
    assert_eq!(&sb.buffer[756..760], &[1, 0, 0, 0]);
    assert_eq!(&sb.buffer[760..816], &payload[..]);
    assert_eq!(sb.last_field_offset, 64);
    // a field that cannot fit is rejected and changes nothing
    let before = sb.buffer.clone();
    let big = vec![0u8; 1024];
    assert_eq!(sb.add_field(Field::Journal, &big), Err(BchError::BufferTooSmall));
    assert_eq!(sb.buffer, before);
    assert_eq!(sb.last_field_offset, 64);
}

#[test]
fn finalize_after_appends_counts_them_all() {
    let mut sb = SuperBlock::from(vec![0u8; 1024]);
    // finalizing before any field records zero units
    sb.set_u64s().unwrap();
    assert_eq!(sb.u64s().unwrap(), 0);
    sb.add_field(Field::Members, &vec![0u8; 56]).unwrap();
    // a finalize taken before this append undercounts: it said 0, not 8
    sb.set_u64s().unwrap();
    assert_eq!(sb.u64s().unwrap(), 8);
    sb.add_field(Field::Journal, &vec![0u8; 16]).unwrap();
    sb.set_u64s().unwrap();
    assert_eq!(sb.u64s().unwrap(), 11);
}

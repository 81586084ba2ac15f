use libbcachefs::layout::SuperBlockLayout;
use libbcachefs::super_block::BCH_MAGIC;
use libbcachefs::BchError;

const EXAMPLE: [u8; 40] = [
    0xc6, 0x85, 0x73, 0xf6, 0x4e, 0x1a, 0x45, 0xca, 0x82, 0x65, 0xf5, 0x7f, 0x48, 0xba, 0x6d,
    0x81, // magic
    0x00, // layout type
    0x0b, // superblock size
    0x02, // nr superblocks
    0x00, 0x00, 0x00, 0x00, 0x00, // padding
    0x08, 0x00, 0x00, 0x00, 0x00, 0x00, 0x00, 0x00, // offset #1
    0x08, 0x00, 0x00, 0x00, 0x00, 0x00, 0x00, 0x00, // offset #2
];

#[test]
fn parse_simple() {
    let layout = SuperBlockLayout::from(EXAMPLE.to_vec());
    assert_eq!(layout.magic().unwrap(), BCH_MAGIC);
    assert_eq!(layout.layout_type().unwrap(), 0);
    assert_eq!(layout.sb_max_size().unwrap(), 0x0b);
    assert_eq!(layout.nr_superblocks().unwrap(), 0x02);
    assert_eq!(layout.sb_offset(0).unwrap(), 0x08);
    assert_eq!(layout.sb_offset(1).unwrap(), 0x08);
}

#[test]
fn build_simple() {
    let data = vec![0x00; 40];
    let mut layout = SuperBlockLayout::from(data);
    layout.set_magic().unwrap();
    layout.set_layout_type(0x00).unwrap();
    layout.set_sb_max_size(0x0b).unwrap();
    layout.set_nr_superblocks(0x02).unwrap();
    layout.set_sb_offset(0, 8).unwrap();
    layout.set_sb_offset(1, 8).unwrap();
    assert_eq!(layout.magic().unwrap(), BCH_MAGIC);
    assert_eq!(layout.buffer[..], EXAMPLE[..]);
}

#[test]
fn offset_index_capacity() {
    // index past the 512-byte record is rejected even on a long buffer
    let mut layout = SuperBlockLayout::from(vec![0u8; 4096]);
    assert_eq!(layout.set_sb_offset(61, 8), Err(BchError::BufferTooSmall));
    layout.set_sb_offset(60, 8).unwrap();
    assert_eq!(layout.sb_offset(60).unwrap(), 8);
    assert_eq!(layout.sb_offset(61), Err(BchError::BufferTooSmall));
    // an offset entry past the buffer is rejected and changes nothing
    let mut short = SuperBlockLayout::from(vec![0u8; 40]);
    let before = short.buffer.clone();
    assert_eq!(short.set_sb_offset(2, 8), Err(BchError::BufferTooSmall));
    assert_eq!(short.buffer, before);
}

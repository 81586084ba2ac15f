use libbcachefs::features::DATA_TYPES_DEFAULT;
use libbcachefs::member::{MemberField, MemberFlag};
use libbcachefs::BchError;

#[test]
fn member_scalar_fields() {
    let mut m = MemberField::from(vec![0u8; 56]);
    m.set_uuid(0xa1a2a3a4b1b2c1c2d1d2d3d4d5d6d7d8).unwrap();
    m.set_n_buckets(0x0102030405060708).unwrap();
    m.set_first_bucket(0).unwrap();
    m.set_bucket_size(2048).unwrap();
    assert_eq!(u128::from_le_bytes(m.buffer[0..16].try_into().unwrap()), 0xa1a2a3a4b1b2c1c2d1d2d3d4d5d6d7d8);
    assert_eq!(u64::from_le_bytes(m.buffer[16..24].try_into().unwrap()), 0x0102030405060708);
    assert_eq!(u16::from_le_bytes(m.buffer[24..26].try_into().unwrap()), 0);
    assert_eq!(u16::from_le_bytes(m.buffer[26..28].try_into().unwrap()), 2048);
}

#[test]
fn member_flag_round_trip() {
    let mut m = MemberField::from(vec![0u8; 56]);
    m.set_flag(MemberFlag::replacement(), 5).unwrap();
    assert_eq!(m.get_flag(MemberFlag::replacement()).unwrap(), 5);
    m.set_flag(MemberFlag::data_allowed(), DATA_TYPES_DEFAULT).unwrap();
    assert_eq!(m.get_flag(MemberFlag::data_allowed()).unwrap(), DATA_TYPES_DEFAULT);
    m.set_flag(MemberFlag::durability(), 2).unwrap();
    assert_eq!(m.get_flag(MemberFlag::durability()).unwrap(), 2);
    // each earlier flag kept its value
    assert_eq!(m.get_flag(MemberFlag::replacement()).unwrap(), 5);
    assert_eq!(m.get_flag(MemberFlag::data_allowed()).unwrap(), DATA_TYPES_DEFAULT);
}

#[test]
fn member_flag_rejects_wide_value() {
    let mut m = MemberField::from(vec![0u8; 56]);
    m.set_flag(MemberFlag::durability(), 1).unwrap();
    let before = m.buffer.clone();
    // durability is two bits wide: 4 does not fit, and nothing changes
    assert_eq!(
        m.set_flag(MemberFlag::durability(), 4),
        Err(BchError::InvalidValue { value: 4, max: 3 })
    );
    assert_eq!(m.buffer, before);
    assert_eq!(m.get_flag(MemberFlag::durability()).unwrap(), 1);
}

#[test]
fn member_flag_isolation_on_seeded_word() {
    // seed the shared word with a non-zero pattern in every other flag
    let mut m = MemberField::from(vec![0u8; 56]);
    m.set_flag(MemberFlag::replacement(), 0xb).unwrap();
    m.set_flag(MemberFlag::discard(), 1).unwrap();
    m.set_flag(MemberFlag::group(), 0x5a).unwrap();
    m.set_flag(MemberFlag::durability(), 3).unwrap();
    // rewrite one flag in the middle of the word
    m.set_flag(MemberFlag::data_allowed(), 0x15).unwrap();
    // no neighbour moved
    assert_eq!(m.get_flag(MemberFlag::replacement()).unwrap(), 0xb);
    assert_eq!(m.get_flag(MemberFlag::discard()).unwrap(), 1);
    assert_eq!(m.get_flag(MemberFlag::group()).unwrap(), 0x5a);
    assert_eq!(m.get_flag(MemberFlag::durability()).unwrap(), 3);
    assert_eq!(m.get_flag(MemberFlag::data_allowed()).unwrap(), 0x15);
}

#[test]
fn member_short_buffer() {
    let mut m = MemberField::from(vec![0u8; 8]);
    assert_eq!(m.set_uuid(1), Err(BchError::BufferTooSmall));
    assert_eq!(m.set_n_buckets(1), Err(BchError::BufferTooSmall));
    assert_eq!(m.set_flag(MemberFlag::durability(), 1), Err(BchError::BufferTooSmall));
    assert_eq!(m.get_flag(MemberFlag::durability()), Err(BchError::BufferTooSmall));
    assert_eq!(m.buffer, vec![0u8; 8]);
}

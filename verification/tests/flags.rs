use libbcachefs::features::{
    DATA_TYPES_DEFAULT, FEATURES_ALL, FEATURES_ALWAYS,
};
use libbcachefs::flags::{SuperBlockFlag, SuperBlockFlags};
use libbcachefs::BchError;

#[test]
fn flag_round_trip() {
    let mut f = SuperBlockFlags::from(vec![0u8; 64]);
    f.set_flag(SuperBlockFlag::btree_node_size(), 512).unwrap();
    assert_eq!(f.get_flag(SuperBlockFlag::btree_node_size()).unwrap(), 512);
    f.set_flag(SuperBlockFlag::gc_reserve(), 8).unwrap();
    assert_eq!(f.get_flag(SuperBlockFlag::gc_reserve()).unwrap(), 8);
    f.set_flag(SuperBlockFlag::meta_replicas_req(), 1).unwrap();
    assert_eq!(f.get_flag(SuperBlockFlag::meta_replicas_req()).unwrap(), 1);
    f.set_flag(SuperBlockFlag::background_target(), 0xfff).unwrap();
    assert_eq!(f.get_flag(SuperBlockFlag::background_target()).unwrap(), 0xfff);
    f.set_flag(SuperBlockFlag::metadata_target(), 0xabc).unwrap();
    assert_eq!(f.get_flag(SuperBlockFlag::metadata_target()).unwrap(), 0xabc);
}

#[test]
fn flag_rejects_wide_value_unchanged() {
    let mut f = SuperBlockFlags::from(vec![0u8; 64]);
    f.set_flag(SuperBlockFlag::meta_replicas_want(), 3).unwrap();
    let before = f.buffer.clone();
    assert_eq!(
        f.set_flag(SuperBlockFlag::meta_replicas_want(), 16),
        Err(BchError::InvalidValue { value: 16, max: 15 })
    );
    assert_eq!(f.buffer, before);
    assert_eq!(
        f.set_flag(SuperBlockFlag::posix_acl(), 2),
        Err(BchError::InvalidValue { value: 2, max: 1 })
    );
    assert_eq!(f.buffer, before);
}

#[test]
fn flag_isolation_on_seeded_word() {
    // every named flag of word zero carries a non-zero pattern
    let mut f = SuperBlockFlags::from(vec![0u8; 64]);
    f.set_flag(SuperBlockFlag::error_action(), 0x9).unwrap();
    f.set_flag(SuperBlockFlag::btree_node_size(), 0xa5a5).unwrap();
    f.set_flag(SuperBlockFlag::gc_reserve(), 0x1f).unwrap();
    f.set_flag(SuperBlockFlag::meta_replicas_want(), 0xc).unwrap();
    f.set_flag(SuperBlockFlag::data_replicas_want(), 0x3).unwrap();
    f.set_flag(SuperBlockFlag::posix_acl(), 1).unwrap();
    // rewrite one flag in the middle of the shared word
    f.set_flag(SuperBlockFlag::gc_reserve(), 0x02).unwrap();
    // the bits of every other flag in the word are exactly as seeded
    assert_eq!(f.get_flag(SuperBlockFlag::error_action()).unwrap(), 0x9);
    assert_eq!(f.get_flag(SuperBlockFlag::btree_node_size()).unwrap(), 0xa5a5);
    assert_eq!(f.get_flag(SuperBlockFlag::gc_reserve()).unwrap(), 0x02);
    assert_eq!(f.get_flag(SuperBlockFlag::meta_replicas_want()).unwrap(), 0xc);
    assert_eq!(f.get_flag(SuperBlockFlag::data_replicas_want()).unwrap(), 0x3);
    assert_eq!(f.get_flag(SuperBlockFlag::posix_acl()).unwrap(), 1);
    // a flag in another word is untouched as well
    assert_eq!(f.get_flag(SuperBlockFlag::meta_replicas_req()).unwrap(), 0);
}

#[test]
fn feature_constants() {
    let always = (1u64 << 9) | (1 << 12) | (1 << 13) | (1 << 17) | (1 << 18);
    assert_eq!(FEATURES_ALWAYS, always);
    assert_eq!(
        FEATURES_ALL,
        always | (1 << 7) | (1 << 11) | (1 << 15) | (1 << 16)
    );
    assert_eq!(DATA_TYPES_DEFAULT, 30);
}

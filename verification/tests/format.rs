use libbcachefs::features::FEATURES_ALL;
use libbcachefs::format::{build_format, format_plan, DeviceGeometry, FormatParams};
use libbcachefs::super_block::BCH_MAGIC;
use libbcachefs::{BchError, ConfigIssue};

fn default_params() -> FormatParams {
    FormatParams {
        metadata_replicas: 1,
        data_replicas: 1,
        encrypted: false,
        no_passphrase: false,
        label: None,
        user_uuid: 0xa1a2a3a4b1b2c1c2d1d2d3d4d5d6d7d8,
        superblock_size: 2048,
        block_size: 512,
    }
}

fn two_devices() -> Vec<DeviceGeometry> {
    // two devices of 32 MiB (65536 sectors), 512-byte native blocks
    vec![
        DeviceGeometry { size: 65536, block_size: 1 },
        DeviceGeometry { size: 65536, block_size: 1 },
    ]
}

#[test]
fn end_to_end_two_devices() {
    let params = default_params();
    let devices = two_devices();
    let member_uuids = vec![0x11111111111111111111111111111111, 0x22222222222222222222222222222222];
    let out = build_format(&params, &devices, 0x0f0e0d0c0b0a09080706050403020100, &member_uuids)
        .unwrap();

    // the layout record is one buffer, written identically to every device
    assert_eq!(out.layout.len(), 512);
    assert_eq!(u128::from_le_bytes(out.layout[0..16].try_into().unwrap()), BCH_MAGIC);
    assert_eq!(out.layout[16], 0); // layout type
    assert_eq!(out.layout[17], 11); // log2(2048)
    assert_eq!(out.layout[18], 1); // one superblock copy
    assert_eq!(u64::from_le_bytes(out.layout[24..32].try_into().unwrap()), 8);
    assert!(out.layout[32..].iter().all(|b| *b == 0));

    // the superblock copies differ only in the device index byte
    assert_eq!(out.superblocks.len(), 2);
    let sb0 = &out.superblocks[0];
    let sb1 = &out.superblocks[1];
    assert_eq!(sb0.len(), 1024);
    assert_eq!(sb1.len(), 1024);
    for k in 0..1024 {
        if k == 122 {
            assert_eq!(sb0[k], 0);
            assert_eq!(sb1[k], 1);
        } else {
            assert_eq!(sb0[k], sb1[k]);
        }
    }

    // fixed fields of the shared superblock
    assert_eq!(u16::from_le_bytes(sb0[16..18].try_into().unwrap()), 13); // version
    assert_eq!(u16::from_le_bytes(sb0[18..20].try_into().unwrap()), 13); // version min
    assert_eq!(u128::from_le_bytes(sb0[24..40].try_into().unwrap()), BCH_MAGIC);
    assert_eq!(
        u128::from_le_bytes(sb0[40..56].try_into().unwrap()),
        0x0f0e0d0c0b0a09080706050403020100
    );
    assert_eq!(
        u128::from_le_bytes(sb0[56..72].try_into().unwrap()),
        0xa1a2a3a4b1b2c1c2d1d2d3d4d5d6d7d8
    );
    assert!(sb0[72..104].iter().all(|b| *b == 0)); // no label
    assert_eq!(u64::from_le_bytes(sb0[104..112].try_into().unwrap()), 8); // offset
    assert_eq!(u64::from_le_bytes(sb0[112..120].try_into().unwrap()), 0); // seq
    assert_eq!(u16::from_le_bytes(sb0[120..122].try_into().unwrap()), 1); // 512 bytes = 1 sector
    assert_eq!(sb0[123], 2); // nr devices
    assert_eq!(u32::from_le_bytes(sb0[124..128].try_into().unwrap()), 15); // (2*56+8)/8
    assert_eq!(u32::from_le_bytes(sb0[140..144].try_into().unwrap()), 1); // time precision

    // flag words: btree node size 512, gc reserve 8, one replica each way
    let w0 = u64::from_le_bytes(sb0[144..152].try_into().unwrap());
    assert_eq!(w0, (512u64 << 12) | (8 << 28) | (1 << 48) | (1 << 52));
    let w1 = u64::from_le_bytes(sb0[152..160].try_into().unwrap());
    assert_eq!(w1, (1u64 << 20) | (1 << 24));
    assert!(sb0[160..208].iter().all(|b| *b == 0));

    assert_eq!(u64::from_le_bytes(sb0[208..216].try_into().unwrap()), FEATURES_ALL);
    assert!(sb0[216..240].iter().all(|b| *b == 0)); // features hi + compat

    // the embedded layout copy equals the standalone record
    assert_eq!(&sb0[240..752], &out.layout[..]);

    // the Members field: header, then one record per device
    assert_eq!(u32::from_le_bytes(sb0[752..756].try_into().unwrap()), 15);
    assert_eq!(u32::from_le_bytes(sb0[756..760].try_into().unwrap()), 1);
    let m0 = &sb0[760..816];
    let m1 = &sb0[816..872];
    let u0 = u128::from_le_bytes(m0[0..16].try_into().unwrap());
    let u1 = u128::from_le_bytes(m1[0..16].try_into().unwrap());
    assert_eq!(u0, member_uuids[0]);
    assert_eq!(u1, member_uuids[1]);
    assert_ne!(u0, u1);
    for m in [m0, m1] {
        // 65536 sectors in 512-sector buckets
        assert_eq!(u64::from_le_bytes(m[16..24].try_into().unwrap()), 128);
        assert_eq!(u16::from_le_bytes(m[24..26].try_into().unwrap()), 0);
        assert_eq!(u16::from_le_bytes(m[26..28].try_into().unwrap()), 512);
        let flags = u64::from_le_bytes(m[40..48].try_into().unwrap());
        assert_eq!(flags, (30u64 << 15) | (2 << 28));
    }
    assert!(sb0[872..].iter().all(|b| *b == 0));

    // the plans match the planner
    assert_eq!(out.plans.len(), 2);
    assert_eq!(out.plans[0].bucket_size, 512);
    assert_eq!(out.plans[0].nbuckets, 128);
    assert_eq!(out.plans[1], out.plans[0]);
}

#[test]
fn label_lands_in_the_label_area() {
    let mut params = default_params();
    params.label = Some(b"backup".to_vec());
    let out = build_format(&params, &two_devices(), 1, &vec![2, 3]).unwrap();
    let sb0 = &out.superblocks[0];
    assert_eq!(&sb0[72..78], b"backup");
    assert!(sb0[78..104].iter().all(|b| *b == 0));
}

#[test]
fn encryption_is_unsupported() {
    let mut params = default_params();
    params.encrypted = true;
    assert_eq!(
        build_format(&params, &two_devices(), 1, &vec![2, 3]),
        Err(BchError::Unsupported)
    );
    // an explicit passphrase skip lets the format proceed unencrypted
    params.no_passphrase = true;
    assert!(build_format(&params, &two_devices(), 1, &vec![2, 3]).is_ok());
}

#[test]
fn oversized_label_is_rejected() {
    let mut params = default_params();
    params.label = Some(vec![b'x'; 33]);
    assert_eq!(
        build_format(&params, &two_devices(), 1, &vec![2, 3]),
        Err(BchError::Config(ConfigIssue::LabelTooLong { len: 33 }))
    );
}

#[test]
fn too_small_device_is_rejected_before_any_output() {
    let params = default_params();
    let devices = vec![
        DeviceGeometry { size: 65536, block_size: 1 },
        DeviceGeometry { size: 100, block_size: 1 },
    ];
    assert_eq!(
        build_format(&params, &devices, 1, &vec![2, 3]),
        Err(BchError::Config(ConfigIssue::DeviceTooSmall { size: 100, min: 32768 }))
    );
}

#[test]
fn native_block_size_above_requested_is_rejected() {
    let params = default_params(); // 512 bytes = 1 sector
    let devices = vec![DeviceGeometry { size: 1 << 20, block_size: 8 }];
    assert_eq!(
        build_format(&params, &devices, 1, &vec![2]),
        Err(
            BchError::Config(
                ConfigIssue::BlockSizeBelowDevice { block_size: 512, max_device_block_size: 8 }
            )
        )
    );
}

#[test]
fn replica_counts_must_fit_their_bit_ranges() {
    let mut params = default_params();
    params.metadata_replicas = 16;
    assert_eq!(
        build_format(&params, &two_devices(), 1, &vec![2, 3]),
        Err(BchError::InvalidValue { value: 16, max: 15 })
    );
    params.metadata_replicas = 1;
    params.data_replicas = 99;
    assert_eq!(
        build_format(&params, &two_devices(), 1, &vec![2, 3]),
        Err(BchError::InvalidValue { value: 99, max: 15 })
    );
}

#[test]
fn more_devices_than_the_members_field_holds() {
    let params = default_params();
    let devices = vec![DeviceGeometry { size: 65536, block_size: 1 }; 5];
    assert_eq!(
        build_format(&params, &devices, 1, &vec![1, 2, 3, 4, 5]),
        Err(BchError::BufferTooSmall)
    );
    let four = vec![DeviceGeometry { size: 65536, block_size: 1 }; 4];
    assert!(build_format(&params, &four, 1, &vec![1, 2, 3, 4]).is_ok());
}

#[test]
fn format_plan_generates_the_uuids() {
    let params = default_params();
    let out = format_plan(&params, &two_devices()).unwrap();
    assert_eq!(out.superblocks.len(), 2);
    assert_eq!(out.layout.len(), 512);
    let sb0 = &out.superblocks[0];
    let sb1 = &out.superblocks[1];
    for k in 0..1024 {
        if k != 122 {
            assert_eq!(sb0[k], sb1[k]);
        }
    }
    // the two member records carry distinct freshly generated UUIDs
    let u0 = u128::from_le_bytes(sb0[760..776].try_into().unwrap());
    let u1 = u128::from_le_bytes(sb0[816..832].try_into().unwrap());
    assert_ne!(u0, u1);
    // the filesystem UUID is a version-4 UUID: version nibble 4
    let fs_uuid = &sb0[40..56];
    assert_eq!(fs_uuid[6] >> 4, 4);
    // rejection does not depend on the generated values
    let mut bad = default_params();
    bad.encrypted = true;
    assert_eq!(format_plan(&bad, &two_devices()), Err(BchError::Unsupported));
}

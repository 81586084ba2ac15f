//! Assembly of the on-disk records for one format operation.
//!
//! Given the resolved format parameters and every device's probed geometry,
//! validate everything first, then build the superblock layout record, one
//! shared superblock, and the per-device superblock copies that differ only
//! in their device-index byte.  No byte reaches a device from here: the
//! caller writes the returned buffers at their fixed sectors.

use vstd::prelude::*;

verus! {

use crate::codec::{
    le_at, lemma_le_val_zero, lemma_nested_le_at, lemma_pow256_values, lemma_stored_le_at,
    set_bits,
};
use crate::features::{DATA_TYPES_DEFAULT, FEATURES_ALL};
use crate::flags::{SuperBlockFlag, SuperBlockFlags};
use crate::layout::SuperBlockLayout;
use crate::member::{MemberField, MemberFlag};
use crate::plan::{log2_floor, log2_floor_spec, plan_buckets, plan_spec};
use crate::super_block::{Field, SuperBlock, BCH_MAGIC};
use crate::{BchError, ConfigIssue};

/// The newest metadata version this tool knows of.
pub const METADATA_VERSION_MAX: u16 = 14;

/// The metadata version this tool writes.
pub const METADATA_VERSION_CURRENT: u16 = METADATA_VERSION_MAX - 1;

/// The sector at which the primary superblock resides.
pub const SB_SECTOR: u64 = 8;

/// The sector at which the superblock layout record resides.
pub const LAYOUT_SECTOR: u64 = 7;

/// The size in bytes of the superblock buffer this tool assembles.
pub const SB_BUF_SIZE: usize = 1024;

/// The default btree node size, in sectors.
pub const DEFAULT_BTREE_NODE_SIZE: u64 = 512;

/// The resolved parameters of one format operation.
pub struct FormatParams {
    /// Number of metadata replicas wanted.
    pub metadata_replicas: u64,
    /// Number of data replicas wanted.
    pub data_replicas: u64,
    /// Whether encryption was requested (not implemented).
    pub encrypted: bool,
    /// Whether the passphrase prompt was explicitly skipped.
    pub no_passphrase: bool,
    /// Optional label, at most 32 bytes.
    pub label: Option<Vec<u8>>,
    /// The operator-supplied or generated user UUID.
    pub user_uuid: u128,
    /// The maximum superblock size in sectors.
    pub superblock_size: u64,
    /// The requested block size of the new filesystem.
    pub block_size: u16,
}

/// One device's probed geometry: total size and native block size, both in
/// 512-byte sectors.
#[derive(Debug, Clone, Copy, PartialEq, Eq, Structural)]
pub struct DeviceGeometry {
    /// Device size in sectors.
    pub size: u64,
    /// Native block size in sectors.
    pub block_size: u64,
}

/// One device's resolved allocation geometry.
#[derive(Debug, Clone, Copy, PartialEq, Eq, Structural)]
pub struct DevicePlan {
    /// Device size in sectors.
    pub size: u64,
    /// Native block size in sectors.
    pub block_size: u64,
    /// Chosen bucket size in sectors.
    pub bucket_size: u64,
    /// Number of buckets.
    pub nbuckets: u64,
}

/// Everything one format operation writes: the per-device allocation plans,
/// the layout record for the layout sector, and one superblock buffer per
/// device for the superblock sector.
#[derive(Debug, PartialEq, Eq)]
pub struct FormatOutput {
    /// Per-device allocation plans, in input order.
    pub plans: Vec<DevicePlan>,
    /// The 512-byte layout record, identical on every device.
    pub layout: Vec<u8>,
    /// One superblock buffer per device, differing only in the
    /// device-index byte.
    pub superblocks: Vec<Vec<u8>>,
}

/// The label's length in bytes (zero when absent).
pub open spec fn label_len(params: FormatParams) -> nat {
    match params.label {
        Option::Some(l) => l@.len(),
        Option::None => 0,
    }
}

/// A device's native block size in bytes, as the planner consumes it.
pub open spec fn native_bytes(d: DeviceGeometry) -> u64 {
    (d.block_size * 512) as u64
}

/// The planner's outcome for one device under the requested block size.
pub open spec fn plan_of(d: DeviceGeometry, block: u64) -> Result<(u64, u64), BchError> {
    plan_spec(d.size, native_bytes(d), block)
}

/// The plan record for one device (fields zero when the planner rejects
/// it; such a device never reaches an output).
pub open spec fn plan_entry(d: DeviceGeometry, block: u64) -> DevicePlan {
    match plan_of(d, block) {
        Ok(p) => DevicePlan {
            size: d.size,
            block_size: d.block_size,
            bucket_size: p.0,
            nbuckets: p.1,
        },
        Err(_) => DevicePlan { size: d.size, block_size: d.block_size, bucket_size: 0, nbuckets: 0 },
    }
}

/// The planner error of the first device it rejects, in input order.
pub open spec fn first_plan_error(devices: Seq<DeviceGeometry>, block: u64) -> Option<BchError>
    decreases devices.len(),
{
    if devices.len() == 0 {
        Option::None
    } else {
        match plan_of(devices[0], block) {
            Err(e) => Option::Some(e),
            Ok(_) => first_plan_error(devices.skip(1), block),
        }
    }
}

/// The largest native block size among the devices, in sectors.
pub open spec fn max_native(devices: Seq<DeviceGeometry>) -> u64
    decreases devices.len(),
{
    if devices.len() == 0 {
        0
    } else {
        let rest = max_native(devices.drop_last());
        if devices.last().block_size >= rest {
            devices.last().block_size
        } else {
            rest
        }
    }
}

/// Why a format request is rejected, checked in this order before any
/// record is assembled; `None` means the request is served.
///
/// The superblock buffer is a fixed 1024 bytes, so the Members field caps
/// the device count at four; a longer device list is rejected as a
/// too-small buffer.
pub open spec fn build_issue(params: FormatParams, devices: Seq<DeviceGeometry>) -> Option<
    BchError,
> {
    if params.encrypted && !params.no_passphrase {
        Option::Some(BchError::Unsupported)
    } else if label_len(params) > 32 {
        Option::Some(BchError::Config(ConfigIssue::LabelTooLong { len: label_len(params) as u64 }))
    } else if first_plan_error(devices, params.block_size as u64) is Some {
        first_plan_error(devices, params.block_size as u64)
    } else if ((params.block_size >> 9) as u64) < max_native(devices) {
        Option::Some(
            BchError::Config(
                ConfigIssue::BlockSizeBelowDevice {
                    block_size: params.block_size as u64,
                    max_device_block_size: max_native(devices),
                },
            ),
        )
    } else if params.metadata_replicas > 15 {
        Option::Some(BchError::InvalidValue { value: params.metadata_replicas, max: 15 })
    } else if params.data_replicas > 15 {
        Option::Some(BchError::InvalidValue { value: params.data_replicas, max: 15 })
    } else if 760 + 56 * devices.len() > 1024 {
        Option::Some(BchError::BufferTooSmall)
    } else {
        Option::None
    }
}

/// The first packed flag word the format writes: the btree node size, an
/// 8 percent garbage-collection reserve, and the wanted metadata and data
/// replica counts.
pub open spec fn flags_word0(b: u64, m: u64, d: u64) -> u64 {
    set_bits(set_bits(set_bits(set_bits(0u64, 12, 16, b), 28, 5, 8), 48, 4, m), 52, 4, d)
}

/// The second packed flag word: one metadata and one data replica
/// required.
pub open spec fn flags_word1() -> u64 {
    set_bits(set_bits(0u64, 20, 4, 1), 24, 4, 1)
}

/// The packed flag word of every member record: replacement policy 0, no
/// discard, the default data types, durability 2.
pub open spec fn member_flags_word() -> u64 {
    set_bits(set_bits(set_bits(set_bits(0u64, 10, 4, 0), 14, 1, 0), 15, 5, 30), 28, 2, 2)
}

/// The layout record's contents: the magic, layout type 0, the log2 of the
/// maximum superblock size, one described superblock copy at the
/// superblock sector, and zero padding everywhere else.
pub open spec fn layout_bytes_ok(l: Seq<u8>, params: FormatParams) -> bool {
    &&& l.len() == 512
    &&& le_at(l, 0, 16) == BCH_MAGIC as nat
    &&& l[16] == 0u8
    &&& l[17] == log2_floor_spec(params.superblock_size as nat) as u8
    &&& l[18] == 1u8
    &&& le_at(l, 24, 8) == 8
    &&& forall|k: int|
        0 <= k < 512 && !(0 <= k < 16) && !(16 <= k <= 18) && !(24 <= k < 32) ==> l[k] == 0u8
}

/// One member record's contents inside the superblock's Members field,
/// starting at byte `m`: the member UUID, its bucket count, first bucket
/// zero, its bucket size, the shared member flag word, and zero padding.
pub open spec fn member_region_ok(sb: Seq<u8>, m: int, uuid: u128, nb: u64, bs: u64) -> bool {
    &&& le_at(sb, m, 16) == uuid as nat
    &&& le_at(sb, m + 16, 8) == nb as nat
    &&& le_at(sb, m + 24, 2) == 0
    &&& le_at(sb, m + 26, 2) == bs as nat
    &&& le_at(sb, m + 40, 8) == member_flags_word() as nat
    &&& forall|k: int| m + 28 <= k < m + 40 ==> sb[k] == 0u8
    &&& forall|k: int| m + 48 <= k < m + 56 ==> sb[k] == 0u8
}

/// The byte positions of the superblock that the format leaves zero.
pub open spec fn sb_zero_area(k: int, lab: int, n: int) -> bool {
    ||| 0 <= k < 16
    ||| 20 <= k < 24
    ||| 72 + lab <= k < 104
    ||| 112 <= k < 120
    ||| 128 <= k < 140
    ||| 160 <= k < 208
    ||| 216 <= k < 240
    ||| 760 + 56 * n <= k < 1024
}

/// The shared superblock's contents (device index zero): every fixed field
/// at its offset, the embedded layout copy, the Members field with one
/// record per device, and zero everywhere else.
pub open spec fn superblock_bytes_ok(
    sb: Seq<u8>,
    params: FormatParams,
    devices: Seq<DeviceGeometry>,
    fs_uuid: u128,
    member_uuids: Seq<u128>,
) -> bool {
    let n = devices.len() as int;
    let block = params.block_size as u64;
    &&& sb.len() == 1024
    &&& le_at(sb, 16, 2) == METADATA_VERSION_CURRENT as nat
    &&& le_at(sb, 18, 2) == METADATA_VERSION_CURRENT as nat
    &&& le_at(sb, 24, 16) == BCH_MAGIC as nat
    &&& le_at(sb, 40, 16) == fs_uuid as nat
    &&& le_at(sb, 56, 16) == params.user_uuid as nat
    &&& (match params.label {
        Option::Some(l) => sb.subrange(72, 72 + l@.len() as int) == l@,
        Option::None => true,
    })
    &&& le_at(sb, 104, 8) == SB_SECTOR as nat
    &&& le_at(sb, 120, 2) == (params.block_size >> 9) as nat
    &&& sb[122] == 0u8
    &&& sb[123] == n as u8
    &&& le_at(sb, 124, 4) == (56 * n + 8) as nat / 8
    &&& le_at(sb, 140, 4) == 1
    &&& le_at(sb, 144, 8) == flags_word0(512, params.metadata_replicas, params.data_replicas) as nat
    &&& le_at(sb, 152, 8) == flags_word1() as nat
    &&& le_at(sb, 208, 8) == FEATURES_ALL as nat
    &&& layout_bytes_ok(sb.subrange(240, 752), params)
    &&& le_at(sb, 752, 4) == (56 * n + 8) as nat / 8
    &&& le_at(sb, 756, 4) == 1
    &&& forall|i: int|
        0 <= i < n ==> #[trigger] member_region_ok(
            sb,
            760 + 56 * i,
            member_uuids[i],
            plan_entry(devices[i], block).nbuckets,
            plan_entry(devices[i], block).bucket_size,
        )
    &&& forall|k: int|
        0 <= k < 1024 && sb_zero_area(k, label_len(params) as int, n) ==> sb[k] == 0u8
}

/// Everything the format output promises when the request is served.
pub open spec fn format_output_ok(
    out: FormatOutput,
    params: FormatParams,
    devices: Seq<DeviceGeometry>,
    fs_uuid: u128,
    member_uuids: Seq<u128>,
) -> bool {
    let n = devices.len() as int;
    let sb = out.superblocks@[0]@;
    &&& out.plans@.len() == n
    &&& forall|i: int|
        0 <= i < n ==> #[trigger] out.plans@[i] == plan_entry(devices[i], params.block_size as u64)
    &&& layout_bytes_ok(out.layout@, params)
    &&& out.superblocks@.len() == n
    &&& forall|i: int| 0 <= i < n ==> #[trigger] out.superblocks@[i]@ == sb.update(122, i as u8)
    &&& sb.subrange(240, 752) == out.layout@
    &&& superblock_bytes_ok(sb, params, devices, fs_uuid, member_uuids)
}

/// The prefix of the first rejected device characterizes the planner error
/// the whole list reports.
proof fn lemma_first_plan_error_at(devices: Seq<DeviceGeometry>, block: u64, i: int)
    requires
        0 <= i < devices.len(),
        forall|j: int| 0 <= j < i ==> plan_of(devices[j], block) is Ok,
        plan_of(devices[i], block) is Err,
    ensures
        first_plan_error(devices, block) == Option::Some(plan_of(devices[i], block)->Err_0),
    decreases i,
{
    if i == 0 {
    } else {
        assert(forall|j: int|
            0 <= j < i - 1 ==> devices.skip(1)[j] == devices[j + 1] && plan_of(
                devices[j + 1],
                block,
            ) is Ok);
        assert(devices.skip(1)[i - 1] == devices[i]);
        lemma_first_plan_error_at(devices.skip(1), block, i - 1);
    }
}

/// When the planner accepts every device, no planner error is reported.
proof fn lemma_first_plan_error_none(devices: Seq<DeviceGeometry>, block: u64)
    requires
        forall|j: int| 0 <= j < devices.len() ==> plan_of(devices[j], block) is Ok,
    ensures
        first_plan_error(devices, block) is None,
    decreases devices.len(),
{
    if devices.len() > 0 {
        assert(forall|j: int|
            0 <= j < devices.len() - 1 ==> devices.skip(1)[j] == devices[j + 1] && plan_of(
                devices[j + 1],
                block,
            ) is Ok);
        lemma_first_plan_error_none(devices.skip(1), block);
    }
}


/// Build the packed flags block the format writes: 64 zeroed bytes with
/// the two flag words filled in.
fn build_flags(btree: u64, m: u64, d: u64) -> (r: SuperBlockFlags)
    requires
        btree <= 65535,
        m <= 15,
        d <= 15,
    ensures
        r.buffer@.len() == 64,
        le_at(r.buffer@, 0, 8) == flags_word0(btree, m, d) as nat,
        le_at(r.buffer@, 8, 8) == flags_word1() as nat,
        forall|k: int| 16 <= k < 64 ==> r.buffer@[k] == 0u8,
{
    let mut flags = SuperBlockFlags::from(crate::codec::zero_vec(64));
    proof {
        lemma_pow256_values();
        assert((1u64 << 16) - 1 == 65535 && (1u64 << 5) - 1 == 31 && (1u64 << 4) - 1 == 15 && (
        1u64 << 1) - 1 == 1 && (1u64 << 2) - 1 == 3) by (bit_vector);
        lemma_le_val_zero(flags.buffer@.subrange(0, 8));
    }
    let ghost f0 = flags.buffer@;
    let _ = flags.set_flag(SuperBlockFlag::btree_node_size(), btree);
    let ghost f1 = flags.buffer@;
    proof {
        lemma_stored_le_at(f0, f1, 0, 8, set_bits(0u64, 12, 16, btree) as nat);
    }
    let _ = flags.set_flag(SuperBlockFlag::gc_reserve(), 8);
    let ghost f2 = flags.buffer@;
    proof {
        lemma_stored_le_at(f1, f2, 0, 8, set_bits(set_bits(0u64, 12, 16, btree), 28, 5, 8) as nat);
    }
    let _ = flags.set_flag(SuperBlockFlag::meta_replicas_want(), m);
    let ghost f3 = flags.buffer@;
    proof {
        lemma_stored_le_at(
            f2,
            f3,
            0,
            8,
            set_bits(set_bits(set_bits(0u64, 12, 16, btree), 28, 5, 8), 48, 4, m) as nat,
        );
    }
    let _ = flags.set_flag(SuperBlockFlag::data_replicas_want(), d);
    let ghost f4 = flags.buffer@;
    proof {
        lemma_stored_le_at(f3, f4, 0, 8, flags_word0(btree, m, d) as nat);
        lemma_le_val_zero(f4.subrange(8, 16));
    }
    let _ = flags.set_flag(SuperBlockFlag::meta_replicas_req(), 1);
    let ghost f5 = flags.buffer@;
    proof {
        lemma_stored_le_at(f4, f5, 8, 8, set_bits(0u64, 20, 4, 1) as nat);
    }
    let _ = flags.set_flag(SuperBlockFlag::data_replicas_req(), 1);
    let ghost f6 = flags.buffer@;
    proof {
        lemma_stored_le_at(f5, f6, 8, 8, flags_word1() as nat);
        assert(f6.subrange(0, 8) =~= f4.subrange(0, 8));
        lemma_stored_le_at(f3, f4, 0, 8, flags_word0(btree, m, d) as nat);
    }
    flags
}

/// Build the 512-byte layout record: the magic, layout type 0, one
/// superblock copy at the superblock sector, and the given maximum size.
fn build_layout(superblock_size: u64) -> (r: SuperBlockLayout)
    requires
        superblock_size >= 1,
    ensures
        r.buffer@.len() == 512,
        le_at(r.buffer@, 0, 16) == BCH_MAGIC as nat,
        r.buffer@[16] == 0u8,
        r.buffer@[17] == log2_floor_spec(superblock_size as nat) as u8,
        r.buffer@[18] == 1u8,
        le_at(r.buffer@, 24, 8) == 8,
        forall|k: int|
            0 <= k < 512 && !(0 <= k < 16) && !(16 <= k <= 18) && !(24 <= k < 32) ==> r.buffer@[k]
                == 0u8,
{
    let mut layout = SuperBlockLayout::from(crate::codec::zero_vec(512));
    proof {
        lemma_pow256_values();
    }
    let ghost l0 = layout.buffer@;
    let _ = layout.set_magic();
    let ghost l1 = layout.buffer@;
    let _ = layout.set_layout_type(0);
    let _ = layout.set_nr_superblocks(1);
    let e: u64 = log2_floor(superblock_size);
    let _ = layout.set_sb_max_size(e as u8);
    let ghost l4 = layout.buffer@;
    let _ = layout.set_sb_offset(0, SB_SECTOR);
    let ghost l5 = layout.buffer@;
    proof {
        lemma_stored_le_at(l0, l1, 0, 16, BCH_MAGIC as nat);
        assert(l5.subrange(0, 16) =~= l1.subrange(0, 16));
        lemma_stored_le_at(l4, l5, 24, 8, 8);
    }
    layout
}

/// Build one 56-byte member record.
fn build_member(uuid: u128, nb: u64, bs: u64) -> (r: MemberField)
    requires
        bs <= 2048,
    ensures
        r.buffer@.len() == 56,
        member_region_ok(r.buffer@, 0, uuid, nb, bs),
{
    let mut mf = MemberField::from(crate::codec::zero_vec(56));
    proof {
        lemma_pow256_values();
        assert((1u64 << 4) - 1 == 15 && (1u64 << 1) - 1 == 1 && (1u64 << 5) - 1 == 31 && (1u64
            << 2) - 1 == 3) by (bit_vector);
        assert(DATA_TYPES_DEFAULT == 30) by (bit_vector);
    }
    let ghost m0 = mf.buffer@;
    let _ = mf.set_uuid(uuid);
    let ghost m1 = mf.buffer@;
    let _ = mf.set_n_buckets(nb);
    let ghost m2 = mf.buffer@;
    let _ = mf.set_first_bucket(0);
    let ghost m3 = mf.buffer@;
    let _ = mf.set_bucket_size(bs as u16);
    let ghost m4 = mf.buffer@;
    proof {
        lemma_le_val_zero(m4.subrange(40, 48));
    }
    let _ = mf.set_flag(MemberFlag::replacement(), 0);
    let ghost m5 = mf.buffer@;
    proof {
        lemma_stored_le_at(m4, m5, 40, 8, set_bits(0u64, 10, 4, 0) as nat);
    }
    let _ = mf.set_flag(MemberFlag::discard(), 0);
    let ghost m6 = mf.buffer@;
    proof {
        lemma_stored_le_at(m5, m6, 40, 8, set_bits(set_bits(0u64, 10, 4, 0), 14, 1, 0) as nat);
    }
    let _ = mf.set_flag(MemberFlag::data_allowed(), DATA_TYPES_DEFAULT);
    let ghost m7 = mf.buffer@;
    proof {
        lemma_stored_le_at(
            m6,
            m7,
            40,
            8,
            set_bits(set_bits(set_bits(0u64, 10, 4, 0), 14, 1, 0), 15, 5, 30) as nat,
        );
    }
    let _ = mf.set_flag(MemberFlag::durability(), 2);
    let ghost m8 = mf.buffer@;
    proof {
        lemma_stored_le_at(m7, m8, 40, 8, member_flags_word() as nat);
        lemma_stored_le_at(m0, m1, 0, 16, uuid as nat);
        assert(m8.subrange(0, 16) =~= m1.subrange(0, 16));
        lemma_stored_le_at(m1, m2, 16, 8, nb as nat);
        assert(m8.subrange(16, 24) =~= m2.subrange(16, 24));
        lemma_stored_le_at(m2, m3, 24, 2, 0);
        assert(m8.subrange(24, 26) =~= m3.subrange(24, 26));
        lemma_stored_le_at(m3, m4, 26, 2, (bs as u16) as nat);
        assert(m8.subrange(26, 28) =~= m4.subrange(26, 28));
    }
    mf
}


/// A member record's facts move with its bytes: whatever holds of the
/// record at one offset holds of an identical byte run at another.
proof fn lemma_member_region_transfer(
    a: Seq<u8>,
    ma: int,
    b: Seq<u8>,
    mb: int,
    uuid: u128,
    nb: u64,
    bs: u64,
)
    requires
        member_region_ok(a, ma, uuid, nb, bs),
        0 <= ma,
        ma + 56 <= a.len(),
        0 <= mb,
        mb + 56 <= b.len(),
        b.subrange(mb, mb + 56) == a.subrange(ma, ma + 56),
    ensures
        member_region_ok(b, mb, uuid, nb, bs),
{
    crate::codec::lemma_subrange_of_subrange(b, mb, mb + 56, 0, 16);
    crate::codec::lemma_subrange_of_subrange(a, ma, ma + 56, 0, 16);
    crate::codec::lemma_subrange_of_subrange(b, mb, mb + 56, 16, 24);
    crate::codec::lemma_subrange_of_subrange(a, ma, ma + 56, 16, 24);
    crate::codec::lemma_subrange_of_subrange(b, mb, mb + 56, 24, 26);
    crate::codec::lemma_subrange_of_subrange(a, ma, ma + 56, 24, 26);
    crate::codec::lemma_subrange_of_subrange(b, mb, mb + 56, 26, 28);
    crate::codec::lemma_subrange_of_subrange(a, ma, ma + 56, 26, 28);
    crate::codec::lemma_subrange_of_subrange(b, mb, mb + 56, 40, 48);
    crate::codec::lemma_subrange_of_subrange(a, ma, ma + 56, 40, 48);
    assert forall|k: int| mb + 28 <= k < mb + 40 implies b[k] == 0u8 by {
        let t = k - mb;
        assert(b.subrange(mb, mb + 56)[t] == b[mb + t]);
        assert(a.subrange(ma, ma + 56)[t] == a[ma + t]);
    };
    assert forall|k: int| mb + 48 <= k < mb + 56 implies b[k] == 0u8 by {
        let t = k - mb;
        assert(b.subrange(mb, mb + 56)[t] == b[mb + t]);
        assert(a.subrange(ma, ma + 56)[t] == a[ma + t]);
    };
}

/// Validate the whole request, then assemble every record of one format
/// operation.
///
/// Nothing is written to any device here: on success the caller holds the
/// per-device plans, one layout record, and one superblock buffer per
/// device, the buffers differing only in their device-index byte.  On
/// rejection the returned error is exactly what `build_issue` names, and
/// no partial output exists.
#[verifier::rlimit(100)]
pub fn build_format(
    params: &FormatParams,
    devices: &Vec<DeviceGeometry>,
    fs_uuid: u128,
    member_uuids: &Vec<u128>,
) -> (r: Result<FormatOutput, BchError>)
    requires
        1 <= devices@.len() <= 255,
        member_uuids@.len() == devices@.len(),
        512 <= params.block_size <= 32768,
        params.superblock_size >= 1,
        forall|i: int| 0 <= i < devices@.len() ==> devices@[i].block_size <= u64::MAX / 512,
    ensures
        build_issue(*params, devices@) matches Some(e) ==> r == Err::<FormatOutput, BchError>(e),
        build_issue(*params, devices@) is None ==> (r matches Ok(out) && format_output_ok(
            out,
            *params,
            devices@,
            fs_uuid,
            member_uuids@,
        )),
{
    let n: usize = devices.len();
    let block: u64 = params.block_size as u64;
    if params.encrypted && !params.no_passphrase {
        return Err(BchError::Unsupported);
    }
    let lab_len: usize = match &params.label {
        Some(l) => l.len(),
        None => 0,
    };
    proof {
        assert(lab_len as nat == label_len(*params));
    }
    if lab_len > 32 {
        return Err(BchError::Config(ConfigIssue::LabelTooLong { len: lab_len as u64 }));
    }
    // plan the geometry of every device before anything is assembled
    let mut plans: Vec<DevicePlan> = Vec::new();
    let mut i: usize = 0;
    while i < n
        invariant
            n == devices@.len(),
            block == params.block_size as u64,
            512 <= block <= 32768,
            forall|j: int| 0 <= j < devices@.len() ==> devices@[j].block_size <= u64::MAX / 512,
            !(params.encrypted && !params.no_passphrase),
            label_len(*params) <= 32,
            i <= n,
            plans@.len() == i,
            forall|j: int| 0 <= j < i ==> #[trigger] plans@[j] == plan_entry(devices@[j], block),
            forall|j: int| 0 <= j < i ==> (#[trigger] plan_of(devices@[j], block)) is Ok,
            forall|j: int|
                0 <= j < i ==> 512 <= (#[trigger] plans@[j]).bucket_size <= 2048
                    && plans@[j].nbuckets >= 64,
        decreases n - i,
    {
        let d = devices[i];
        let native: u64 = d.block_size * 512;
        proof {
            assert(native == native_bytes(devices@[i as int]));
        }
        match plan_buckets(d.size, native, block) {
            Ok(p) => {
                plans.push(
                    DevicePlan {
                        size: d.size,
                        block_size: d.block_size,
                        bucket_size: p.0,
                        nbuckets: p.1,
                    },
                );
            },
            Err(e) => {
                proof {
                    lemma_first_plan_error_at(devices@, block, i as int);
                }
                return Err(e);
            },
        }
        i = i + 1;
    }
    proof {
        lemma_first_plan_error_none(devices@, block);
    }
    // the requested block size serves every device's native block size
    let mut maxn: u64 = 0;
    let mut k: usize = 0;
    proof {
        assert(devices@.take(0) =~= Seq::<DeviceGeometry>::empty());
    }
    while k < n
        invariant
            n == devices@.len(),
            k <= n,
            maxn == max_native(devices@.take(k as int)),
        decreases n - k,
    {
        proof {
            assert(devices@.take(k as int + 1).drop_last() =~= devices@.take(k as int));
            assert(devices@.take(k as int + 1).last() == devices@[k as int]);
        }
        let d = devices[k];
        if d.block_size > maxn {
            maxn = d.block_size;
        }
        k = k + 1;
    }
    proof {
        assert(devices@.take(n as int) =~= devices@);
    }
    if ((params.block_size >> 9) as u64) < maxn {
        return Err(
            BchError::Config(
                ConfigIssue::BlockSizeBelowDevice {
                    block_size: block,
                    max_device_block_size: maxn,
                },
            ),
        );
    }
    // the replica counts must fit their packed bit ranges
    if params.metadata_replicas > 15 {
        return Err(BchError::InvalidValue { value: params.metadata_replicas, max: 15 });
    }
    if params.data_replicas > 15 {
        return Err(BchError::InvalidValue { value: params.data_replicas, max: 15 });
    }
    // the Members field must fit the fixed superblock buffer
    if n > 4 {
        return Err(BchError::BufferTooSmall);
    }
    proof {
        assert(build_issue(*params, devices@) is None);
    }
    // the btree node size: the smallest bucket, capped at the default;
    // every bucket is at least the minimum bucket size, so the cap wins
    let mut minb: u64 = plans[0].bucket_size;
    let mut k2: usize = 1;
    while k2 < n
        invariant
            n == plans@.len(),
            k2 <= n,
            minb >= 512,
            forall|j: int| 0 <= j < n ==> 512 <= #[trigger] plans@[j].bucket_size,
        decreases n - k2,
    {
        if plans[k2].bucket_size < minb {
            minb = plans[k2].bucket_size;
        }
        k2 = k2 + 1;
    }
    let btree: u64 = if minb < DEFAULT_BTREE_NODE_SIZE {
        minb
    } else {
        DEFAULT_BTREE_NODE_SIZE
    };
    proof {
        assert(btree == 512);
    }
    let flags = build_flags(btree, params.metadata_replicas, params.data_replicas);
    let layout = build_layout(params.superblock_size);
    // one member record per device
    let mut member_buf: Vec<u8> = Vec::new();
    let mut mi: usize = 0;
    while mi < n
        invariant
            n == devices@.len(),
            n <= 4,
            mi <= n,
            block == params.block_size as u64,
            member_uuids@.len() == n,
            plans@.len() == n,
            forall|j: int|
                0 <= j < n ==> #[trigger] plans@[j] == plan_entry(devices@[j], block)
                    && 512 <= plans@[j].bucket_size <= 2048,
            member_buf@.len() == 56 * mi,
            forall|j: int|
                0 <= j < mi ==> #[trigger] member_region_ok(
                    member_buf@,
                    56 * j,
                    member_uuids@[j],
                    plans@[j].nbuckets,
                    plans@[j].bucket_size,
                ),
        decreases n - mi,
    {
        let mf = build_member(member_uuids[mi], plans[mi].nbuckets, plans[mi].bucket_size);
        let ghost mfv = mf.buffer@;
        let ghost mb0 = member_buf@;
        let mut mfb = mf.buffer;
        member_buf.append(&mut mfb);
        proof {
            assert(member_buf@ == mb0 + mfv);
            assert forall|j: int|
                0 <= j < mi as int + 1 implies #[trigger] member_region_ok(
                member_buf@,
                56 * j,
                member_uuids@[j],
                plans@[j].nbuckets,
                plans@[j].bucket_size,
            ) by {
                if j < mi as int {
                    assert(member_buf@.subrange(56 * j, 56 * j + 56) =~= mb0.subrange(
                        56 * j,
                        56 * j + 56,
                    ));
                    lemma_member_region_transfer(
                        mb0,
                        56 * j,
                        member_buf@,
                        56 * j,
                        member_uuids@[j],
                        plans@[j].nbuckets,
                        plans@[j].bucket_size,
                    );
                } else {
                    assert(member_buf@.subrange(56 * mi as int, 56 * mi as int + 56)
                        =~= mfv.subrange(0, 56));
                    lemma_member_region_transfer(
                        mfv,
                        0,
                        member_buf@,
                        56 * mi as int,
                        member_uuids@[j],
                        plans@[j].nbuckets,
                        plans@[j].bucket_size,
                    );
                }
            }
        }
        mi = mi + 1;
    }
    // the shared superblock
    let mut sb = SuperBlock::from(crate::codec::zero_vec(1024));
    proof {
        lemma_pow256_values();
    }
    let ghost s0 = sb.buffer@;
    let _ = sb.set_version(METADATA_VERSION_CURRENT);
    let ghost s1 = sb.buffer@;
    let _ = sb.set_version_min(METADATA_VERSION_CURRENT);
    let ghost s2 = sb.buffer@;
    let _ = sb.set_magic();
    let ghost s3 = sb.buffer@;
    let _ = sb.set_block_size(params.block_size >> 9);
    let ghost s4 = sb.buffer@;
    let _ = sb.set_nr_devices(n as u8);
    let ghost s5 = sb.buffer@;
    let _ = sb.set_uuid(fs_uuid);
    let ghost s6 = sb.buffer@;
    let _ = sb.set_user_uuid(params.user_uuid);
    let ghost s7 = sb.buffer@;
    match &params.label {
        Some(l) => {
            let _ = sb.set_label(l);
        },
        None => {},
    }
    let ghost s8 = sb.buffer@;
    let _ = sb.set_time_base_p(1);
    let ghost s9 = sb.buffer@;
    let _ = sb.set_flags(&flags);
    let ghost s10 = sb.buffer@;
    let _ = sb.set_layout(&layout);
    let ghost s11 = sb.buffer@;
    let _ = sb.set_feature(0, FEATURES_ALL);
    let ghost s12 = sb.buffer@;
    let _ = sb.add_field(Field::Members, &member_buf);
    let ghost s13 = sb.buffer@;
    let _ = sb.set_u64s();
    let ghost s14 = sb.buffer@;
    let _ = sb.set_offset(SB_SECTOR);
    let ghost s15 = sb.buffer@;
    proof {
        lemma_pow256_values();
        assert(s15.subrange(16, 18) =~= s1.subrange(16, 18));
        lemma_stored_le_at(s0, s1, 16, 2, METADATA_VERSION_CURRENT as nat);
        assert(s15.subrange(18, 20) =~= s2.subrange(18, 20));
        lemma_stored_le_at(s1, s2, 18, 2, METADATA_VERSION_CURRENT as nat);
        assert(s15.subrange(24, 40) =~= s3.subrange(24, 40));
        lemma_stored_le_at(s2, s3, 24, 16, BCH_MAGIC as nat);
        assert(s15.subrange(120, 122) =~= s4.subrange(120, 122));
        lemma_stored_le_at(s3, s4, 120, 2, (params.block_size >> 9) as nat);
        assert(s15.subrange(40, 56) =~= s6.subrange(40, 56));
        lemma_stored_le_at(s5, s6, 40, 16, fs_uuid as nat);
        assert(s15.subrange(56, 72) =~= s7.subrange(56, 72));
        lemma_stored_le_at(s6, s7, 56, 16, params.user_uuid as nat);
        assert(match params.label {
            Option::Some(l) => s15.subrange(72, 72 + l@.len() as int) =~= s8.subrange(
                72,
                72 + l@.len() as int,
            ) && s8.subrange(72, 72 + l@.len() as int) == l@,
            Option::None => true,
        });
        assert(s15.subrange(140, 144) =~= s9.subrange(140, 144));
        lemma_stored_le_at(s8, s9, 140, 4, 1);
        assert(s15.subrange(144, 208) =~= s10.subrange(144, 208));
        assert(s15.subrange(144, 208) == flags.buffer@);
        lemma_nested_le_at(s15, 144, flags.buffer@, 0, 8);
        lemma_nested_le_at(s15, 144, flags.buffer@, 8, 8);
        assert(s15.subrange(240, 752) =~= s11.subrange(240, 752));
        assert(s15.subrange(240, 752) == layout.buffer@);
        assert(s15.subrange(208, 216) =~= s12.subrange(208, 216));
        lemma_stored_le_at(s11, s12, 208, 8, FEATURES_ALL as nat);
        assert(s15.subrange(752, 756) =~= s13.subrange(752, 756));
        assert(s15.subrange(756, 760) =~= s13.subrange(756, 760));
        assert((56 * n as nat + 8) / 8 % 0x100000000 == (56 * n as nat + 8) / 8);
        crate::codec::lemma_le_round_trip((56 * n as nat + 8) / 8, 4);
        crate::codec::lemma_le_round_trip(1, 4);
        assert(s15.subrange(760, 760 + 56 * n as int) =~= s13.subrange(760, 760 + 56 * n as int));
        assert(s13.subrange(760, 760 + 56 * n as int) == member_buf@);
        assert(s15.subrange(124, 128) =~= s14.subrange(124, 128));
        lemma_stored_le_at(s13, s14, 124, 4, (56 * n as nat + 8) / 8);
        lemma_stored_le_at(s14, s15, 104, 8, SB_SECTOR as nat);
        assert forall|j: int| 0 <= j < n as int implies #[trigger] member_region_ok(
            s15,
            760 + 56 * j,
            member_uuids@[j],
            plan_entry(devices@[j], block).nbuckets,
            plan_entry(devices@[j], block).bucket_size,
        ) by {
            assert(plans@[j] == plan_entry(devices@[j], block));
            crate::codec::lemma_subrange_of_subrange(s15, 760, 760 + 56 * n as int, 56 * j, 56 * j + 56);
            crate::codec::lemma_subrange_of_subrange(
                member_buf@,
                0,
                56 * n as int,
                56 * j,
                56 * j + 56,
            );
            assert(member_buf@.subrange(0, 56 * n as int) =~= member_buf@);
            lemma_member_region_transfer(
                member_buf@,
                56 * j,
                s15,
                760 + 56 * j,
                member_uuids@[j],
                plans@[j].nbuckets,
                plans@[j].bucket_size,
            );
        }
        assert forall|q: int|
            0 <= q < 1024 && sb_zero_area(q, label_len(*params) as int, n as int) implies s15[q]
            == 0u8 by {
            if 160 <= q < 208 {
                assert(s15[q] == flags.buffer@[q - 144]);
            }
        }
        assert(superblock_bytes_ok(
            s15.update(122, 0u8),
            *params,
            devices@,
            fs_uuid,
            member_uuids@,
        )) by {
            assert(s15.update(122, 0u8) =~= s15);
        }
    }
    // one copy per device, each with its own device index
    let mut superblocks: Vec<Vec<u8>> = Vec::new();
    let mut ci: usize = 0;
    while ci < n
        invariant
            ci <= n,
            n <= 255,
            sb.buffer@.len() == 1024,
            sb.buffer@ == s15,
            superblocks@.len() == ci,
            forall|j: int|
                0 <= j < ci ==> #[trigger] superblocks@[j]@ == s15.update(122, j as u8),
        decreases n - ci,
    {
        let mut copy = crate::codec::clone_bytes(&sb.buffer);
        let _ = crate::codec::write_byte(&mut copy, 122, ci as u8);
        proof {
            assert(copy@ =~= s15.update(122, ci as u8));
        }
        superblocks.push(copy);
        ci = ci + 1;
    }
    let out = FormatOutput { plans, layout: layout.buffer, superblocks };
    proof {
        assert(out.superblocks@[0]@ =~= s15.update(122, 0u8));
        let sb0 = out.superblocks@[0]@;
        assert(sb0 =~= s15);
        assert forall|j: int| 0 <= j < n as int implies #[trigger] out.superblocks@[j]@
            == sb0.update(122, j as u8) by {
            assert(out.superblocks@[j]@ =~= sb0.update(122, j as u8));
        }
        assert(sb0.subrange(240, 752) =~= out.layout@);
        assert(superblock_bytes_ok(sb0, *params, devices@, fs_uuid, member_uuids@));
    }
    Ok(out)
}


/// Relies on uuid::Uuid::new_v4: a freshly generated random version-4
/// UUID, returned as the little-endian value of its bytes.  The result is
/// random, so nothing is promised of it.
#[verifier::external_body]
fn fresh_uuid() -> u128 {
    uuid::Uuid::new_v4().to_u128_le()
}

/// Plan one format operation, generating the filesystem UUID and one
/// member UUID per device.
///
/// Whether the request is served does not depend on the generated UUIDs:
/// rejection is exactly `build_issue`, and on success the output is what
/// `build_format` promises for the UUID values that were drawn.
pub fn format_plan(params: &FormatParams, devices: &Vec<DeviceGeometry>) -> (r: Result<
    FormatOutput,
    BchError,
>)
    requires
        1 <= devices@.len() <= 255,
        512 <= params.block_size <= 32768,
        params.superblock_size >= 1,
        forall|i: int| 0 <= i < devices@.len() ==> devices@[i].block_size <= u64::MAX / 512,
    ensures
        build_issue(*params, devices@) matches Some(e) ==> r == Err::<FormatOutput, BchError>(e),
        build_issue(*params, devices@) is None ==> (r matches Ok(out) && exists|
            fu: u128,
            mus: Seq<u128>,
        |
            mus.len() == devices@.len() && #[trigger] format_output_ok(
                out,
                *params,
                devices@,
                fu,
                mus,
            )),
{
    let fs_uuid = fresh_uuid();
    let mut member_uuids: Vec<u128> = Vec::new();
    let mut i: usize = 0;
    while i < devices.len()
        invariant
            i <= devices@.len(),
            member_uuids@.len() == i,
        decreases devices@.len() - i,
    {
        let u = fresh_uuid();
        member_uuids.push(u);
        i = i + 1;
    }
    build_format(params, devices, fs_uuid, &member_uuids)
}

} // verus!

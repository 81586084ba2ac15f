//! Feature and data-type bit catalogs.
//!
//! Single-bit flags aggregated into two derived constants: the features the
//! format tool enables unconditionally, and all features its format version
//! supports; and the data-type bits that constrain which content classes a
//! member device may hold.

use vstd::prelude::*;

verus! {

/// lz4 compression
pub const FEATURE_LZ4: u64 = 1u64 << 0;

/// gzip compression
pub const FEATURE_GZIP: u64 = 1u64 << 1;

/// zstd compression
pub const FEATURE_ZSTD: u64 = 1u64 << 2;

/// Atomic nlink support
pub const FEATURE_ATOMIC_NLINK: u64 = 1u64 << 3;

/// Erasure coding support
pub const FEATURE_EC: u64 = 1u64 << 4;

/// Journal sequence denylist support
pub const FEATURE_JOURNAL_SEQ_DENYLIST_V3: u64 = 1u64 << 5;

/// Reflink support
pub const FEATURE_REFLINK: u64 = 1u64 << 6;

/// Use the new shortened siphash
pub const FEATURE_NEW_SIPHASH: u64 = 1u64 << 7;

/// Allow inline data
pub const FEATURE_INLINE_DATA: u64 = 1u64 << 8;

/// Allow new extent overwrites
pub const FEATURE_NEW_EXTENT_OVERWRITE: u64 = 1u64 << 9;

/// Incompressible data
pub const FEATURE_INCOMPRESSIBLE: u64 = 1u64 << 10;

/// Allow btree v2 pointers
pub const FEATURE_BTREE_PTR_V2: u64 = 1u64 << 11;

/// Extents above btree updates
pub const FEATURE_EXTENTS_ABOVE_BTREE_UPDATES: u64 = 1u64 << 12;

/// Btree updates are journalled
pub const FEATURE_BTREE_UPDATES_JOURNALLED: u64 = 1u64 << 13;

/// Inline data may be reflinked
pub const FEATURE_REFLINK_INLINE_DATA: u64 = 1u64 << 14;

/// New varint support
pub const FEATURE_NEW_VARINT: u64 = 1u64 << 15;

/// Journal is not flushed
pub const FEATURE_JOURNAL_NO_FLUSH: u64 = 1u64 << 16;

/// Alloc v2 support
pub const FEATURE_ALLOC_V2: u64 = 1u64 << 17;

/// Extents across btree nodes
pub const FEATURE_EXTENTS_ACROSS_BTREE_NODES: u64 = 1u64 << 18;

/// Features always set when formatting from userspace tools.
pub const FEATURES_ALWAYS: u64 = FEATURE_NEW_EXTENT_OVERWRITE | FEATURE_EXTENTS_ABOVE_BTREE_UPDATES
    | FEATURE_BTREE_UPDATES_JOURNALLED | FEATURE_ALLOC_V2 | FEATURE_EXTENTS_ACROSS_BTREE_NODES;

/// All features this tool's format version supports.
pub const FEATURES_ALL: u64 = FEATURES_ALWAYS | FEATURE_NEW_SIPHASH | FEATURE_BTREE_PTR_V2
    | FEATURE_NEW_VARINT | FEATURE_JOURNAL_NO_FLUSH;

/// No data may be stored on the device
pub const DATA_TYPE_NONE: u64 = 1u64 << 0;

/// Superblock data may be stored on the device
pub const DATA_TYPE_SB: u64 = 1u64 << 1;

/// Journal data may be stored on the device
pub const DATA_TYPE_JOURNAL: u64 = 1u64 << 2;

/// Btree pointers may be stored on the device
pub const DATA_TYPE_BTREE: u64 = 1u64 << 3;

/// Extents and reflinks may be stored on the device
pub const DATA_TYPE_USER: u64 = 1u64 << 4;

/// The default set of data types a freshly formatted device accepts.
pub const DATA_TYPES_DEFAULT: u64 = DATA_TYPE_SB | DATA_TYPE_JOURNAL | DATA_TYPE_BTREE
    | DATA_TYPE_USER;

} // verus!

//! Verified assembly of bcachefs on-disk bootstrap metadata.
//!
//! The library computes a filesystem's allocation geometry, lays out the
//! superblock, superblock-layout and per-device member records byte by byte
//! in little-endian order, and proves that every field lands at its fixed
//! offset without disturbing its neighbours.  All device I/O (probing,
//! zeroing, writing the records to their fixed sectors) lives outside the
//! library and only hands plain values in and out.

use vstd::prelude::*;

pub mod codec;
pub mod features;
pub mod flags;
pub mod format;
pub mod layout;
pub mod member;
pub mod plan;
pub mod replicas;
pub mod super_block;

verus! {

/// Why a configuration was rejected before any byte was produced.
#[derive(Debug, Clone, Copy, PartialEq, Eq, Structural)]
pub enum ConfigIssue {
    /// The replica options were combined in a way that has no meaning.
    InvalidReplicas,
    /// A replica count exceeds the number of target devices.
    ReplicasExceedDevices { requested: u64, devices: u64 },
    /// A device cannot hold the minimum number of buckets.
    DeviceTooSmall { size: u64, min: u64 },
    /// The chosen bucket size cannot serve the requested block size.
    BlockSizeTooSmallForBucket { bucket_size: u64, block_size: u64 },
    /// The device would be split into fewer buckets than the allocator needs.
    TooFewBuckets { nbuckets: u64 },
    /// The requested block size is below a device's native block size.
    BlockSizeBelowDevice { block_size: u64, max_device_block_size: u64 },
    /// The label does not fit in the superblock's fixed label area.
    LabelTooLong { len: u64 },
}

/// Errors surfaced by the record builders and the format planner.
#[derive(Debug, Clone, Copy, PartialEq, Eq, Structural)]
pub enum BchError {
    /// A record operation needed more bytes than the backing buffer holds.
    BufferTooSmall,
    /// A bit-packed field was given a value wider than its bit range.
    InvalidValue { value: u64, max: u64 },
    /// The format parameters or device geometry were rejected.
    Config(ConfigIssue),
    /// The requested capability is not implemented (encryption).
    Unsupported,
}

} // verus!

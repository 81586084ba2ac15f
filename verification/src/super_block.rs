//! The superblock record.
//!
//! One logical record per format operation, written (except for its
//! device-index byte) identically to every member device.  Fixed scalar
//! fields sit at fixed byte offsets; after the embedded layout copy a
//! variable list of typed, length-prefixed fields grows behind a cursor
//! (`last_field_offset`), and `set_u64s` finalizes the list's total length
//! in 8-byte units from that cursor.

use vstd::prelude::*;

verus! {

use crate::codec::{
    copy_bytes, le_at, lemma_le_val_bound, lemma_pow256_values, read_byte, read_scalar,
    same_outside, stored_bytes, stored_le, write_byte, write_scalar,
};
use crate::flags::SuperBlockFlags;
use crate::layout::SuperBlockLayout;
use crate::BchError;

/// The 128-bit magic constant identifying a bcachefs superblock, as the
/// little-endian value of its on-disk bytes.
pub const BCH_MAGIC: u128 = 0x816dba487ff56582ca451a4ef67385c6;

/// Byte offset of the format version field.
pub const SB_VERSION: usize = 16;

/// Byte offset of the minimum-compatible version field.
pub const SB_VERSION_MIN: usize = 18;

/// Byte offset of the magic field.
pub const SB_MAGIC: usize = 24;

/// Byte offset of the filesystem UUID field.
pub const SB_UUID: usize = 40;

/// Byte offset of the user UUID field.
pub const SB_USER_UUID: usize = 56;

/// Byte offset of the label field.
pub const SB_LABEL: usize = 72;

/// Size in bytes of the label field.
pub const SB_LABEL_SIZE: usize = 32;

/// Byte offset of the sector-offset field of this superblock copy.
pub const SB_OFFSET: usize = 104;

/// Byte offset of the sequence number field.
pub const SB_SEQ: usize = 112;

/// Byte offset of the block size field.
pub const SB_BLOCK_SIZE: usize = 120;

/// Byte offset of the device index field.
pub const SB_DEV_IDX: usize = 122;

/// Byte offset of the device count field.
pub const SB_NR_DEVS: usize = 123;

/// Byte offset of the variable field list's length field (8-byte units).
pub const SB_U64S: usize = 124;

/// Byte offset of the time base low field.
pub const SB_TIME_BASE_LO: usize = 128;

/// Byte offset of the time base high field.
pub const SB_TIME_BASE_HI: usize = 136;

/// Byte offset of the time precision field.
pub const SB_TIME_BASE_P: usize = 140;

/// Byte offset of the 8-word packed flags block.
pub const SB_FLAGS: usize = 144;

/// Byte offset of the 2-word features bitset.
pub const SB_FEATURES: usize = 208;

/// Byte offset of the 2-word compat bitset.
pub const SB_COMPAT: usize = 224;

/// Byte offset of the embedded superblock layout copy.
pub const SB_LAYOUT: usize = 240;

/// Byte offset at which the variable field list begins.
pub const SB_FIELDS: usize = 752;

/// Superblock field types for the variable field list.
#[derive(Debug, Clone, Copy, PartialEq, Eq, Structural)]
pub enum Field {
    /// Journal field
    Journal,
    /// Superblock info on other members of the filesystem
    Members,
    /// Crypt field
    Crypt,
    /// Old Replicas field
    ReplicasV0,
    /// Quota field
    Quota,
    /// Disk groups field
    DiskGroups,
    /// Clean field
    Clean,
    /// Replicas field
    Replicas,
    /// Journal seq deny list
    JournalSeqDenylist,
}

/// The on-disk type code of a variable-list field.
pub open spec fn field_code(f: Field) -> u32 {
    match f {
        Field::Journal => 0,
        Field::Members => 1,
        Field::Crypt => 2,
        Field::ReplicasV0 => 3,
        Field::Quota => 4,
        Field::DiskGroups => 5,
        Field::Clean => 6,
        Field::Replicas => 7,
        Field::JournalSeqDenylist => 8,
    }
}

/// A superblock record over its backing bytes, together with the cursor of
/// its variable field list.
pub struct SuperBlock {
    /// Total length in bytes (headers included) of the fields appended so
    /// far to the variable field list.
    pub last_field_offset: usize,
    /// Backing bytes of the record.
    pub buffer: Vec<u8>,
}

impl SuperBlock {
    /// Create a superblock view of the given bytes, with an empty variable
    /// field list.
    pub fn from(buf: Vec<u8>) -> (r: SuperBlock)
        ensures
            r.buffer@ == buf@,
            r.last_field_offset == 0,
    {
        SuperBlock { last_field_offset: 0, buffer: buf }
    }

    /// The on-disk format version.
    pub fn version(&self) -> (r: Result<u16, BchError>)
        ensures
            self.buffer@.len() >= 18 ==> (r matches Ok(x) && x as nat == le_at(
                self.buffer@,
                16,
                2,
            )),
            self.buffer@.len() < 18 ==> r == Err::<u16, BchError>(BchError::BufferTooSmall),
    {
        match read_scalar(&self.buffer, SB_VERSION, 2) {
            Ok(x) => {
                proof {
                    lemma_le_val_bound(self.buffer@.subrange(16, 18));
                    lemma_pow256_values();
                }
                Ok(x as u16)
            },
            Err(e) => Err(e),
        }
    }

    /// The minimum format version this superblock stays compatible with.
    pub fn version_min(&self) -> (r: Result<u16, BchError>)
        ensures
            self.buffer@.len() >= 20 ==> (r matches Ok(x) && x as nat == le_at(
                self.buffer@,
                18,
                2,
            )),
            self.buffer@.len() < 20 ==> r == Err::<u16, BchError>(BchError::BufferTooSmall),
    {
        match read_scalar(&self.buffer, SB_VERSION_MIN, 2) {
            Ok(x) => {
                proof {
                    lemma_le_val_bound(self.buffer@.subrange(18, 20));
                    lemma_pow256_values();
                }
                Ok(x as u16)
            },
            Err(e) => Err(e),
        }
    }

    /// The magic value identifying the filesystem type.
    pub fn magic(&self) -> (r: Result<u128, BchError>)
        ensures
            self.buffer@.len() >= 40 ==> (r matches Ok(x) && x as nat == le_at(
                self.buffer@,
                24,
                16,
            )),
            self.buffer@.len() < 40 ==> r == Err::<u128, BchError>(BchError::BufferTooSmall),
    {
        read_scalar(&self.buffer, SB_MAGIC, 16)
    }

    /// The generated filesystem UUID shared by all member devices.
    pub fn uuid(&self) -> (r: Result<u128, BchError>)
        ensures
            self.buffer@.len() >= 56 ==> (r matches Ok(x) && x as nat == le_at(
                self.buffer@,
                40,
                16,
            )),
            self.buffer@.len() < 56 ==> r == Err::<u128, BchError>(BchError::BufferTooSmall),
    {
        read_scalar(&self.buffer, SB_UUID, 16)
    }

    /// The operator-supplied user UUID.
    pub fn user_uuid(&self) -> (r: Result<u128, BchError>)
        ensures
            self.buffer@.len() >= 72 ==> (r matches Ok(x) && x as nat == le_at(
                self.buffer@,
                56,
                16,
            )),
            self.buffer@.len() < 72 ==> r == Err::<u128, BchError>(BchError::BufferTooSmall),
    {
        read_scalar(&self.buffer, SB_USER_UUID, 16)
    }

    /// The label bytes of this superblock.
    pub fn label(&self) -> (r: Result<Vec<u8>, BchError>)
        ensures
            self.buffer@.len() >= 104 ==> (r matches Ok(l) && l@ == self.buffer@.subrange(
                72,
                104,
            )),
            self.buffer@.len() < 104 ==> r == Err::<Vec<u8>, BchError>(BchError::BufferTooSmall),
    {
        if self.buffer.len() < SB_LABEL + SB_LABEL_SIZE {
            return Err(BchError::BufferTooSmall);
        }
        let mut out: Vec<u8> = Vec::new();
        let mut i: usize = 0;
        while i < SB_LABEL_SIZE
            invariant
                i <= 32,
                self.buffer@.len() >= 104,
                out@.len() == i,
                forall|k: int| 0 <= k < i ==> out@[k] == self.buffer@[72 + k],
            decreases 32 - i,
        {
            let b = self.buffer[SB_LABEL + i];
            out.push(b);
            i = i + 1;
        }
        proof {
            assert(out@ =~= self.buffer@.subrange(72, 104));
        }
        Ok(out)
    }

    /// The block size recorded in this superblock, in sectors.
    pub fn block_size(&self) -> (r: Result<u16, BchError>)
        ensures
            self.buffer@.len() >= 122 ==> (r matches Ok(x) && x as nat == le_at(
                self.buffer@,
                120,
                2,
            )),
            self.buffer@.len() < 122 ==> r == Err::<u16, BchError>(BchError::BufferTooSmall),
    {
        match read_scalar(&self.buffer, SB_BLOCK_SIZE, 2) {
            Ok(x) => {
                proof {
                    lemma_le_val_bound(self.buffer@.subrange(120, 122));
                    lemma_pow256_values();
                }
                Ok(x as u16)
            },
            Err(e) => Err(e),
        }
    }

    /// The index this device has among the filesystem's members.
    pub fn device_index(&self) -> (r: Result<u8, BchError>)
        ensures
            self.buffer@.len() > 122 ==> r == Ok::<u8, BchError>(self.buffer@[122]),
            self.buffer@.len() <= 122 ==> r == Err::<u8, BchError>(BchError::BufferTooSmall),
    {
        read_byte(&self.buffer, SB_DEV_IDX)
    }

    /// The number of member devices.
    pub fn nr_devices(&self) -> (r: Result<u8, BchError>)
        ensures
            self.buffer@.len() > 123 ==> r == Ok::<u8, BchError>(self.buffer@[123]),
            self.buffer@.len() <= 123 ==> r == Err::<u8, BchError>(BchError::BufferTooSmall),
    {
        read_byte(&self.buffer, SB_NR_DEVS)
    }

    /// The recorded length of the variable field list in 8-byte units.
    pub fn u64s(&self) -> (r: Result<u32, BchError>)
        ensures
            self.buffer@.len() >= 128 ==> (r matches Ok(x) && x as nat == le_at(
                self.buffer@,
                124,
                4,
            )),
            self.buffer@.len() < 128 ==> r == Err::<u32, BchError>(BchError::BufferTooSmall),
    {
        match read_scalar(&self.buffer, SB_U64S, 4) {
            Ok(x) => {
                proof {
                    lemma_le_val_bound(self.buffer@.subrange(124, 128));
                    lemma_pow256_values();
                }
                Ok(x as u32)
            },
            Err(e) => Err(e),
        }
    }

    /// The low 64 bits of the time base.
    pub fn time_base_lo(&self) -> (r: Result<u64, BchError>)
        ensures
            self.buffer@.len() >= 136 ==> (r matches Ok(x) && x as nat == le_at(
                self.buffer@,
                128,
                8,
            )),
            self.buffer@.len() < 136 ==> r == Err::<u64, BchError>(BchError::BufferTooSmall),
    {
        match read_scalar(&self.buffer, SB_TIME_BASE_LO, 8) {
            Ok(x) => {
                proof {
                    lemma_le_val_bound(self.buffer@.subrange(128, 136));
                    lemma_pow256_values();
                }
                Ok(x as u64)
            },
            Err(e) => Err(e),
        }
    }

    /// The high 32 bits of the time base.
    pub fn time_base_hi(&self) -> (r: Result<u32, BchError>)
        ensures
            self.buffer@.len() >= 140 ==> (r matches Ok(x) && x as nat == le_at(
                self.buffer@,
                136,
                4,
            )),
            self.buffer@.len() < 140 ==> r == Err::<u32, BchError>(BchError::BufferTooSmall),
    {
        match read_scalar(&self.buffer, SB_TIME_BASE_HI, 4) {
            Ok(x) => {
                proof {
                    lemma_le_val_bound(self.buffer@.subrange(136, 140));
                    lemma_pow256_values();
                }
                Ok(x as u32)
            },
            Err(e) => Err(e),
        }
    }

    /// The time precision.
    pub fn time_base_p(&self) -> (r: Result<u32, BchError>)
        ensures
            self.buffer@.len() >= 144 ==> (r matches Ok(x) && x as nat == le_at(
                self.buffer@,
                140,
                4,
            )),
            self.buffer@.len() < 144 ==> r == Err::<u32, BchError>(BchError::BufferTooSmall),
    {
        match read_scalar(&self.buffer, SB_TIME_BASE_P, 4) {
            Ok(x) => {
                proof {
                    lemma_le_val_bound(self.buffer@.subrange(140, 144));
                    lemma_pow256_values();
                }
                Ok(x as u32)
            },
            Err(e) => Err(e),
        }
    }

    /// The eight packed 64-bit flag words.
    pub fn flags_u64s(&self) -> (r: Result<Vec<u64>, BchError>)
        ensures
            self.buffer@.len() >= 208 ==> (r matches Ok(v) && v@.len() == 8 && forall|i: int|
                0 <= i < 8 ==> v@[i] as nat == le_at(self.buffer@, 144 + 8 * i, 8)),
            self.buffer@.len() < 208 ==> r == Err::<Vec<u64>, BchError>(BchError::BufferTooSmall),
    {
        self.read_words(SB_FLAGS, 8)
    }

    /// The feature word at the given index.
    pub fn feature(&self, idx: usize) -> (r: Result<u64, BchError>)
        ensures
            208 + idx * 8 + 8 <= self.buffer@.len() ==> (r matches Ok(x) && x as nat == le_at(
                self.buffer@,
                208 + idx * 8,
                8,
            )),
            208 + idx * 8 + 8 > self.buffer@.len() ==> r == Err::<u64, BchError>(
                BchError::BufferTooSmall,
            ),
    {
        if self.buffer.len() < 216 || idx > (self.buffer.len() - 216) / 8 {
            return Err(BchError::BufferTooSmall);
        }
        let off: usize = SB_FEATURES + idx * 8;
        match read_scalar(&self.buffer, off, 8) {
            Ok(x) => {
                proof {
                    lemma_le_val_bound(self.buffer@.subrange(off as int, off + 8));
                    lemma_pow256_values();
                }
                Ok(x as u64)
            },
            Err(e) => Err(e),
        }
    }

    /// The two feature words.
    pub fn features(&self) -> (r: Result<Vec<u64>, BchError>)
        ensures
            self.buffer@.len() >= 224 ==> (r matches Ok(v) && v@.len() == 2 && forall|i: int|
                0 <= i < 2 ==> v@[i] as nat == le_at(self.buffer@, 208 + 8 * i, 8)),
            self.buffer@.len() < 224 ==> r == Err::<Vec<u64>, BchError>(BchError::BufferTooSmall),
    {
        self.read_words(SB_FEATURES, 2)
    }

    /// The two compat words.
    pub fn compat(&self) -> (r: Result<Vec<u64>, BchError>)
        ensures
            self.buffer@.len() >= 240 ==> (r matches Ok(v) && v@.len() == 2 && forall|i: int|
                0 <= i < 2 ==> v@[i] as nat == le_at(self.buffer@, 224 + 8 * i, 8)),
            self.buffer@.len() < 240 ==> r == Err::<Vec<u64>, BchError>(BchError::BufferTooSmall),
    {
        self.read_words(SB_COMPAT, 2)
    }

    /// Read `count` consecutive 64-bit little-endian words starting at
    /// byte offset `off`.
    fn read_words(&self, off: usize, count: usize) -> (r: Result<Vec<u64>, BchError>)
        requires
            off + count * 8 <= usize::MAX,
        ensures
            self.buffer@.len() >= off + count * 8 ==> (r matches Ok(v) && v@.len() == count
                && forall|i: int|
                0 <= i < count ==> v@[i] as nat == le_at(self.buffer@, off + 8 * i, 8)),
            self.buffer@.len() < off + count * 8 ==> r == Err::<Vec<u64>, BchError>(
                BchError::BufferTooSmall,
            ),
    {
        if self.buffer.len() < off || (self.buffer.len() - off) / 8 < count {
            return Err(BchError::BufferTooSmall);
        }
        let mut out: Vec<u64> = Vec::new();
        let mut i: usize = 0;
        while i < count
            invariant
                i <= count,
                off + count * 8 <= usize::MAX,
                off + count * 8 <= self.buffer@.len(),
                out@.len() == i,
                forall|k: int| 0 <= k < i ==> out@[k] as nat == le_at(self.buffer@, off + 8 * k, 8),
            decreases count - i,
        {
            proof {
                lemma_le_val_bound(self.buffer@.subrange(off + 8 * i, off + 8 * i + 8));
                lemma_pow256_values();
            }
            let w = crate::codec::read_word(&self.buffer, off + i * 8);
            out.push(w);
            i = i + 1;
        }
        Ok(out)
    }

    /// Set the on-disk format version.
    pub fn set_version(&mut self, version: u16) -> (r: Result<(), BchError>)
        ensures
            old(self).buffer@.len() >= 18 ==> r == Ok::<(), BchError>(()) && stored_le(
                old(self).buffer@,
                final(self).buffer@,
                16,
                2,
                version as nat,
            ) && final(self).last_field_offset == old(self).last_field_offset,
            old(self).buffer@.len() < 18 ==> r == Err::<(), BchError>(BchError::BufferTooSmall)
                && final(self).buffer@ == old(self).buffer@ && final(self).last_field_offset
                == old(self).last_field_offset,
    {
        proof {
            lemma_pow256_values();
        }
        write_scalar(&mut self.buffer, SB_VERSION, 2, version as u128)
    }

    /// Set the minimum-compatible format version.
    pub fn set_version_min(&mut self, version: u16) -> (r: Result<(), BchError>)
        ensures
            old(self).buffer@.len() >= 20 ==> r == Ok::<(), BchError>(()) && stored_le(
                old(self).buffer@,
                final(self).buffer@,
                18,
                2,
                version as nat,
            ) && final(self).last_field_offset == old(self).last_field_offset,
            old(self).buffer@.len() < 20 ==> r == Err::<(), BchError>(BchError::BufferTooSmall)
                && final(self).buffer@ == old(self).buffer@ && final(self).last_field_offset
                == old(self).last_field_offset,
    {
        proof {
            lemma_pow256_values();
        }
        write_scalar(&mut self.buffer, SB_VERSION_MIN, 2, version as u128)
    }

    /// Set the magic field to the bcachefs magic value.
    pub fn set_magic(&mut self) -> (r: Result<(), BchError>)
        ensures
            old(self).buffer@.len() >= 40 ==> r == Ok::<(), BchError>(()) && stored_le(
                old(self).buffer@,
                final(self).buffer@,
                24,
                16,
                BCH_MAGIC as nat,
            ) && final(self).last_field_offset == old(self).last_field_offset,
            old(self).buffer@.len() < 40 ==> r == Err::<(), BchError>(BchError::BufferTooSmall)
                && final(self).buffer@ == old(self).buffer@ && final(self).last_field_offset
                == old(self).last_field_offset,
    {
        proof {
            lemma_pow256_values();
        }
        write_scalar(&mut self.buffer, SB_MAGIC, 16, BCH_MAGIC)
    }

    /// Set the generated filesystem UUID.
    pub fn set_uuid(&mut self, uuid: u128) -> (r: Result<(), BchError>)
        ensures
            old(self).buffer@.len() >= 56 ==> r == Ok::<(), BchError>(()) && stored_le(
                old(self).buffer@,
                final(self).buffer@,
                40,
                16,
                uuid as nat,
            ) && final(self).last_field_offset == old(self).last_field_offset,
            old(self).buffer@.len() < 56 ==> r == Err::<(), BchError>(BchError::BufferTooSmall)
                && final(self).buffer@ == old(self).buffer@ && final(self).last_field_offset
                == old(self).last_field_offset,
    {
        proof {
            lemma_pow256_values();
        }
        write_scalar(&mut self.buffer, SB_UUID, 16, uuid)
    }

    /// Set the operator-supplied user UUID.
    pub fn set_user_uuid(&mut self, uuid: u128) -> (r: Result<(), BchError>)
        ensures
            old(self).buffer@.len() >= 72 ==> r == Ok::<(), BchError>(()) && stored_le(
                old(self).buffer@,
                final(self).buffer@,
                56,
                16,
                uuid as nat,
            ) && final(self).last_field_offset == old(self).last_field_offset,
            old(self).buffer@.len() < 72 ==> r == Err::<(), BchError>(BchError::BufferTooSmall)
                && final(self).buffer@ == old(self).buffer@ && final(self).last_field_offset
                == old(self).last_field_offset,
    {
        proof {
            lemma_pow256_values();
        }
        write_scalar(&mut self.buffer, SB_USER_UUID, 16, uuid)
    }

    /// Set the label bytes; the label may not exceed the fixed label area.
    pub fn set_label(&mut self, label: &Vec<u8>) -> (r: Result<(), BchError>)
        ensures
            old(self).buffer@.len() >= 104 && label@.len() <= 32 ==> r == Ok::<(), BchError>(())
                && stored_bytes(old(self).buffer@, final(self).buffer@, 72, label@) && final(self).last_field_offset == old(self).last_field_offset,
            old(self).buffer@.len() < 104 || label@.len() > 32 ==> r == Err::<(), BchError>(
                BchError::BufferTooSmall,
            ) && final(self).buffer@ == old(self).buffer@ && final(self).last_field_offset == old(self).last_field_offset,
    {
        if self.buffer.len() < SB_LABEL + SB_LABEL_SIZE {
            Err(BchError::BufferTooSmall)
        } else if label.len() > SB_LABEL_SIZE {
            Err(BchError::BufferTooSmall)
        } else {
            copy_bytes(&mut self.buffer, SB_LABEL, label);
            Ok(())
        }
    }

    /// Set the sequence number.
    pub fn set_seq(&mut self, seq: u64) -> (r: Result<(), BchError>)
        ensures
            old(self).buffer@.len() >= 120 ==> r == Ok::<(), BchError>(()) && stored_le(
                old(self).buffer@,
                final(self).buffer@,
                112,
                8,
                seq as nat,
            ) && final(self).last_field_offset == old(self).last_field_offset,
            old(self).buffer@.len() < 120 ==> r == Err::<(), BchError>(BchError::BufferTooSmall)
                && final(self).buffer@ == old(self).buffer@ && final(self).last_field_offset
                == old(self).last_field_offset,
    {
        proof {
            lemma_pow256_values();
        }
        write_scalar(&mut self.buffer, SB_SEQ, 8, seq as u128)
    }

    /// Set the sector offset at which this superblock copy resides.
    pub fn set_offset(&mut self, offset: u64) -> (r: Result<(), BchError>)
        ensures
            old(self).buffer@.len() >= 112 ==> r == Ok::<(), BchError>(()) && stored_le(
                old(self).buffer@,
                final(self).buffer@,
                104,
                8,
                offset as nat,
            ) && final(self).last_field_offset == old(self).last_field_offset,
            old(self).buffer@.len() < 112 ==> r == Err::<(), BchError>(BchError::BufferTooSmall)
                && final(self).buffer@ == old(self).buffer@ && final(self).last_field_offset
                == old(self).last_field_offset,
    {
        proof {
            lemma_pow256_values();
        }
        write_scalar(&mut self.buffer, SB_OFFSET, 8, offset as u128)
    }

    /// Set the block size, in sectors.
    pub fn set_block_size(&mut self, block_size: u16) -> (r: Result<(), BchError>)
        ensures
            old(self).buffer@.len() >= 122 ==> r == Ok::<(), BchError>(()) && stored_le(
                old(self).buffer@,
                final(self).buffer@,
                120,
                2,
                block_size as nat,
            ) && final(self).last_field_offset == old(self).last_field_offset,
            old(self).buffer@.len() < 122 ==> r == Err::<(), BchError>(BchError::BufferTooSmall)
                && final(self).buffer@ == old(self).buffer@ && final(self).last_field_offset
                == old(self).last_field_offset,
    {
        proof {
            lemma_pow256_values();
        }
        write_scalar(&mut self.buffer, SB_BLOCK_SIZE, 2, block_size as u128)
    }

    /// Set the index this device has among the filesystem's members.
    pub fn set_dev_idx(&mut self, val: u8) -> (r: Result<(), BchError>)
        ensures
            old(self).buffer@.len() > 122 ==> r == Ok::<(), BchError>(()) && final(self).buffer@
                == old(self).buffer@.update(122, val) && final(self).last_field_offset == old(self).last_field_offset,
            old(self).buffer@.len() <= 122 ==> r == Err::<(), BchError>(BchError::BufferTooSmall)
                && final(self).buffer@ == old(self).buffer@ && final(self).last_field_offset
                == old(self).last_field_offset,
    {
        write_byte(&mut self.buffer, SB_DEV_IDX, val)
    }

    /// Set the number of member devices.
    pub fn set_nr_devices(&mut self, val: u8) -> (r: Result<(), BchError>)
        ensures
            old(self).buffer@.len() > 123 ==> r == Ok::<(), BchError>(()) && final(self).buffer@
                == old(self).buffer@.update(123, val) && final(self).last_field_offset == old(self).last_field_offset,
            old(self).buffer@.len() <= 123 ==> r == Err::<(), BchError>(BchError::BufferTooSmall)
                && final(self).buffer@ == old(self).buffer@ && final(self).last_field_offset
                == old(self).last_field_offset,
    {
        write_byte(&mut self.buffer, SB_NR_DEVS, val)
    }

    /// Finalize the variable field list: record its total length in 8-byte
    /// units from the cursor.  Must be called after the last `add_field`;
    /// any earlier call records a shorter, stale length.
    pub fn set_u64s(&mut self) -> (r: Result<(), BchError>)
        ensures
            old(self).buffer@.len() >= 128 ==> r == Ok::<(), BchError>(()) && stored_le(
                old(self).buffer@,
                final(self).buffer@,
                124,
                4,
                (old(self).last_field_offset as nat / 8) % 0x100000000,
            ) && final(self).last_field_offset == old(self).last_field_offset,
            old(self).buffer@.len() < 128 ==> r == Err::<(), BchError>(BchError::BufferTooSmall)
                && final(self).buffer@ == old(self).buffer@ && final(self).last_field_offset
                == old(self).last_field_offset,
    {
        let q: u64 = (self.last_field_offset / 8) as u64;
        proof {
            assert(q & 0xFFFFFFFF == q % 0x100000000) by (bit_vector);
            assert(q & 0xFFFFFFFF < 0x100000000) by (bit_vector);
            lemma_pow256_values();
        }
        let u64s: u32 = (q & 0xFFFFFFFF) as u32;
        write_scalar(&mut self.buffer, SB_U64S, 4, u64s as u128)
    }

    /// Set the time precision.
    pub fn set_time_base_p(&mut self, val: u32) -> (r: Result<(), BchError>)
        ensures
            old(self).buffer@.len() >= 144 ==> r == Ok::<(), BchError>(()) && stored_le(
                old(self).buffer@,
                final(self).buffer@,
                140,
                4,
                val as nat,
            ) && final(self).last_field_offset == old(self).last_field_offset,
            old(self).buffer@.len() < 144 ==> r == Err::<(), BchError>(BchError::BufferTooSmall)
                && final(self).buffer@ == old(self).buffer@ && final(self).last_field_offset
                == old(self).last_field_offset,
    {
        proof {
            lemma_pow256_values();
        }
        write_scalar(&mut self.buffer, SB_TIME_BASE_P, 4, val as u128)
    }

    /// Set the feature word at the given index.
    pub fn set_feature(&mut self, idx: usize, val: u64) -> (r: Result<(), BchError>)
        ensures
            208 + idx * 8 + 8 <= old(self).buffer@.len() ==> r == Ok::<(), BchError>(())
                && stored_le(
                old(self).buffer@,
                final(self).buffer@,
                208 + idx * 8,
                8,
                val as nat,
            ) && final(self).last_field_offset == old(self).last_field_offset,
            208 + idx * 8 + 8 > old(self).buffer@.len() ==> r == Err::<(), BchError>(
                BchError::BufferTooSmall,
            ) && final(self).buffer@ == old(self).buffer@ && final(self).last_field_offset == old(self).last_field_offset,
    {
        if self.buffer.len() < 216 || idx > (self.buffer.len() - 216) / 8 {
            return Err(BchError::BufferTooSmall);
        }
        proof {
            lemma_pow256_values();
        }
        write_scalar(&mut self.buffer, SB_FEATURES + idx * 8, 8, val as u128)
    }

    /// Copy a packed flags block into the flags area.
    pub fn set_flags(&mut self, flags: &SuperBlockFlags) -> (r: Result<(), BchError>)
        ensures
            144 + flags.buffer@.len() <= old(self).buffer@.len() ==> r == Ok::<(), BchError>(())
                && stored_bytes(old(self).buffer@, final(self).buffer@, 144, flags.buffer@)
                && final(self).last_field_offset == old(self).last_field_offset,
            144 + flags.buffer@.len() > old(self).buffer@.len() ==> r == Err::<(), BchError>(
                BchError::BufferTooSmall,
            ) && final(self).buffer@ == old(self).buffer@ && final(self).last_field_offset == old(self).last_field_offset,
    {
        if self.buffer.len() < SB_FLAGS || self.buffer.len() - SB_FLAGS < flags.buffer.len() {
            return Err(BchError::BufferTooSmall);
        }
        copy_bytes(&mut self.buffer, SB_FLAGS, &flags.buffer);
        Ok(())
    }

    /// Copy a superblock layout record into the embedded layout area.
    ///
    /// This does not place the record at its own fixed sector; it fills the
    /// copy that every superblock carries between the fixed fields and the
    /// variable field list.
    pub fn set_layout(&mut self, layout: &SuperBlockLayout) -> (r: Result<(), BchError>)
        ensures
            240 + layout.buffer@.len() <= old(self).buffer@.len() ==> r == Ok::<(), BchError>(())
                && stored_bytes(old(self).buffer@, final(self).buffer@, 240, layout.buffer@)
                && final(self).last_field_offset == old(self).last_field_offset,
            240 + layout.buffer@.len() > old(self).buffer@.len() ==> r == Err::<(), BchError>(
                BchError::BufferTooSmall,
            ) && final(self).buffer@ == old(self).buffer@ && final(self).last_field_offset == old(self).last_field_offset,
    {
        if self.buffer.len() < SB_LAYOUT || self.buffer.len() - SB_LAYOUT < layout.buffer.len() {
            return Err(BchError::BufferTooSmall);
        }
        copy_bytes(&mut self.buffer, SB_LAYOUT, &layout.buffer);
        Ok(())
    }

    /// Append a typed, length-prefixed field to the variable field list at
    /// the cursor, and advance the cursor past it.
    pub fn add_field(&mut self, ty: Field, field: &Vec<u8>) -> (r: Result<(), BchError>)
        ensures
            760 + old(self).last_field_offset + field@.len() <= old(self).buffer@.len() ==> ({
                let start = 752 + old(self).last_field_offset as int;
                &&& r == Ok::<(), BchError>(())
                &&& final(self).last_field_offset == old(self).last_field_offset + field@.len()
                    + 8
                &&& same_outside(
                    old(self).buffer@,
                    final(self).buffer@,
                    start,
                    field@.len() + 8 as int,
                )
                &&& final(self).buffer@.subrange(start, start + 4) == crate::codec::le_bytes(
                    (((field@.len() + 8) / 8) % 0x100000000) as nat,
                    4,
                )
                &&& final(self).buffer@.subrange(start + 4, start + 8) == crate::codec::le_bytes(
                    field_code(ty) as nat,
                    4,
                )
                &&& final(self).buffer@.subrange(start + 8, start + 8 + field@.len()) == field@
            }),
            760 + old(self).last_field_offset + field@.len() > old(self).buffer@.len() ==> r
                == Err::<(), BchError>(BchError::BufferTooSmall) && final(self).buffer@ == old(self).buffer@ && final(self).last_field_offset == old(self).last_field_offset,
    {
        let blen: usize = self.buffer.len();
        if blen < SB_FIELDS + 8 {
            return Err(BchError::BufferTooSmall);
        }
        let avail: usize = blen - (SB_FIELDS + 8);
        if self.last_field_offset > avail {
            return Err(BchError::BufferTooSmall);
        }
        if field.len() > avail - self.last_field_offset {
            return Err(BchError::BufferTooSmall);
        }
        let header_start: usize = SB_FIELDS + self.last_field_offset;
        let entry_len: usize = field.len() + 8;
        let q: u64 = (entry_len / 8) as u64;
        proof {
            assert(q & 0xFFFFFFFF == q % 0x100000000) by (bit_vector);
            assert(q & 0xFFFFFFFF < 0x100000000) by (bit_vector);
        }
        let u64s: u32 = (q & 0xFFFFFFFF) as u32;
        let code: u32 = match ty {
            Field::Journal => 0,
            Field::Members => 1,
            Field::Crypt => 2,
            Field::ReplicasV0 => 3,
            Field::Quota => 4,
            Field::DiskGroups => 5,
            Field::Clean => 6,
            Field::Replicas => 7,
            Field::JournalSeqDenylist => 8,
        };
        proof {
            lemma_pow256_values();
        }
        let ghost s0 = self.buffer@;
        let _ = write_scalar(&mut self.buffer, header_start, 4, u64s as u128);
        let ghost s1 = self.buffer@;
        let _ = write_scalar(&mut self.buffer, header_start + 4, 4, code as u128);
        let ghost s2 = self.buffer@;
        copy_bytes(&mut self.buffer, header_start + 8, field);
        self.last_field_offset = self.last_field_offset + entry_len;
        proof {
            let b = self.buffer@;
            let start = 752 + old(self).last_field_offset as int;
            crate::codec::lemma_le_bytes_len((((field@.len() + 8) / 8) % 0x100000000) as nat, 4);
            crate::codec::lemma_le_bytes_len(field_code(ty) as nat, 4);
            assert(b.subrange(start, start + 4) =~= crate::codec::le_bytes(
                (((field@.len() + 8) / 8) % 0x100000000) as nat,
                4,
            ));
            assert(b.subrange(start + 4, start + 8) =~= crate::codec::le_bytes(
                field_code(ty) as nat,
                4,
            ));
            assert(b.subrange(start + 8, start + 8 + field@.len()) =~= field@);
        }
        Ok(())
    }
}


/// Finalizing the field list before a later append undercounts: every
/// appended field advances the cursor by at least one whole 8-byte unit,
/// so the length recorded from the earlier cursor is strictly smaller
/// than the one recorded after the append.
pub proof fn lemma_finalize_before_add_undercounts(cursor: nat, field_len: nat)
    requires
        (cursor + field_len + 8) / 8 < 0x100000000,
    ensures
        (cursor / 8) % 0x100000000 < ((cursor + field_len + 8) / 8) % 0x100000000,
{
    vstd::arithmetic::div_mod::lemma_div_plus_one(cursor as int, 8);
    vstd::arithmetic::div_mod::lemma_div_is_ordered(
        cursor as int + 8,
        (cursor + field_len + 8) as int,
        8,
    );
}

} // verus!

//! The superblock layout record.
//!
//! A fixed 512-byte record that tells a reader where the superblock copies
//! of a device live: the filesystem magic, a layout type, the log2 of the
//! maximum superblock size in sectors, the number of copies described, and
//! one sector offset per copy.  The record is written to its own fixed
//! sector and embedded verbatim inside every superblock.

use vstd::prelude::*;

verus! {

use crate::codec::{
    le_at, lemma_le_val_bound, lemma_pow256_values, read_byte, read_scalar, stored_le, write_byte,
    write_scalar,
};
use crate::BchError;

/// Byte offset of the magic field.
pub const LAYOUT_MAGIC: usize = 0;

/// Byte offset of the layout type field.
pub const LAYOUT_TYPE: usize = 16;

/// Byte offset of the maximum-superblock-size exponent field.
pub const LAYOUT_SB_MAX_SIZE: usize = 17;

/// Byte offset of the superblock count field.
pub const LAYOUT_NR_SUPERBLOCKS: usize = 18;

/// Byte offset of the first superblock sector offset entry.
pub const LAYOUT_SB_OFFSET: usize = 24;

/// Total size of the record: offset entries run to this boundary.
pub const LAYOUT_SIZE: usize = 512;

/// A superblock layout record over its backing bytes.
pub struct SuperBlockLayout {
    /// Backing bytes of the record.
    pub buffer: Vec<u8>,
}

impl SuperBlockLayout {
    /// Create a superblock layout view of the given bytes.
    pub fn from(buf: Vec<u8>) -> (r: SuperBlockLayout)
        ensures
            r.buffer@ == buf@,
    {
        SuperBlockLayout { buffer: buf }
    }

    /// Get the magic value identifying the filesystem type.
    pub fn magic(&self) -> (r: Result<u128, BchError>)
        ensures
            self.buffer@.len() >= 16 ==> (r matches Ok(x) && x as nat == le_at(
                self.buffer@,
                0,
                16,
            )),
            self.buffer@.len() < 16 ==> r == Err::<u128, BchError>(BchError::BufferTooSmall),
    {
        read_scalar(&self.buffer, LAYOUT_MAGIC, 16)
    }

    /// Get the layout type.
    pub fn layout_type(&self) -> (r: Result<u8, BchError>)
        ensures
            self.buffer@.len() > 16 ==> r == Ok::<u8, BchError>(self.buffer@[16]),
            self.buffer@.len() <= 16 ==> r == Err::<u8, BchError>(BchError::BufferTooSmall),
    {
        read_byte(&self.buffer, LAYOUT_TYPE)
    }

    /// Get the log2 of the maximum superblock size in sectors.
    pub fn sb_max_size(&self) -> (r: Result<u8, BchError>)
        ensures
            self.buffer@.len() > 17 ==> r == Ok::<u8, BchError>(self.buffer@[17]),
            self.buffer@.len() <= 17 ==> r == Err::<u8, BchError>(BchError::BufferTooSmall),
    {
        read_byte(&self.buffer, LAYOUT_SB_MAX_SIZE)
    }

    /// Get the number of superblock copies this record describes.
    pub fn nr_superblocks(&self) -> (r: Result<u8, BchError>)
        ensures
            self.buffer@.len() > 18 ==> r == Ok::<u8, BchError>(self.buffer@[18]),
            self.buffer@.len() <= 18 ==> r == Err::<u8, BchError>(BchError::BufferTooSmall),
    {
        read_byte(&self.buffer, LAYOUT_NR_SUPERBLOCKS)
    }

    /// Get the sector offset of the superblock copy at the given index.
    pub fn sb_offset(&self, idx: usize) -> (r: Result<u64, BchError>)
        ensures
            24 + idx * 8 + 8 <= LAYOUT_SIZE && 24 + idx * 8 + 8 <= self.buffer@.len() ==> (
            r matches Ok(x) && x as nat == le_at(self.buffer@, 24 + idx * 8, 8)),
            24 + idx * 8 + 8 > LAYOUT_SIZE || 24 + idx * 8 + 8 > self.buffer@.len() ==> r
                == Err::<u64, BchError>(BchError::BufferTooSmall),
    {
        if idx > (LAYOUT_SIZE - 32) / 8 {
            return Err(BchError::BufferTooSmall);
        }
        let off: usize = LAYOUT_SB_OFFSET + idx * 8;
        match read_scalar(&self.buffer, off, 8) {
            Ok(x) => {
                proof {
                    lemma_le_val_bound(self.buffer@.subrange(off as int, off + 8));
                    lemma_pow256_values();
                }
                Ok(x as u64)
            },
            Err(e) => Err(e),
        }
    }

    /// Set the magic field to the bcachefs magic value.
    pub fn set_magic(&mut self) -> (r: Result<(), BchError>)
        ensures
            old(self).buffer@.len() >= 16 ==> r == Ok::<(), BchError>(()) && stored_le(
                old(self).buffer@,
                final(self).buffer@,
                0,
                16,
                crate::super_block::BCH_MAGIC as nat,
            ),
            old(self).buffer@.len() < 16 ==> r == Err::<(), BchError>(BchError::BufferTooSmall)
                && final(self).buffer@ == old(self).buffer@,
    {
        proof {
            lemma_pow256_values();
        }
        write_scalar(&mut self.buffer, LAYOUT_MAGIC, 16, crate::super_block::BCH_MAGIC)
    }

    /// Set the layout type.
    pub fn set_layout_type(&mut self, val: u8) -> (r: Result<(), BchError>)
        ensures
            old(self).buffer@.len() > 16 ==> r == Ok::<(), BchError>(()) && final(self).buffer@
                == old(self).buffer@.update(16, val),
            old(self).buffer@.len() <= 16 ==> r == Err::<(), BchError>(BchError::BufferTooSmall)
                && final(self).buffer@ == old(self).buffer@,
    {
        write_byte(&mut self.buffer, LAYOUT_TYPE, val)
    }

    /// Set the log2 of the maximum superblock size in sectors.
    pub fn set_sb_max_size(&mut self, val: u8) -> (r: Result<(), BchError>)
        ensures
            old(self).buffer@.len() > 17 ==> r == Ok::<(), BchError>(()) && final(self).buffer@
                == old(self).buffer@.update(17, val),
            old(self).buffer@.len() <= 17 ==> r == Err::<(), BchError>(BchError::BufferTooSmall)
                && final(self).buffer@ == old(self).buffer@,
    {
        write_byte(&mut self.buffer, LAYOUT_SB_MAX_SIZE, val)
    }

    /// Set the number of superblock copies this record describes.
    pub fn set_nr_superblocks(&mut self, val: u8) -> (r: Result<(), BchError>)
        ensures
            old(self).buffer@.len() > 18 ==> r == Ok::<(), BchError>(()) && final(self).buffer@
                == old(self).buffer@.update(18, val),
            old(self).buffer@.len() <= 18 ==> r == Err::<(), BchError>(BchError::BufferTooSmall)
                && final(self).buffer@ == old(self).buffer@,
    {
        write_byte(&mut self.buffer, LAYOUT_NR_SUPERBLOCKS, val)
    }

    /// Set the sector offset of the superblock copy at the given index.
    pub fn set_sb_offset(&mut self, idx: usize, val: u64) -> (r: Result<(), BchError>)
        ensures
            24 + idx * 8 + 8 <= LAYOUT_SIZE && 24 + idx * 8 + 8 <= old(self).buffer@.len() ==> r
                == Ok::<(), BchError>(()) && stored_le(
                old(self).buffer@,
                final(self).buffer@,
                24 + idx * 8,
                8,
                val as nat,
            ),
            24 + idx * 8 + 8 > LAYOUT_SIZE || 24 + idx * 8 + 8 > old(self).buffer@.len() ==> r
                == Err::<(), BchError>(BchError::BufferTooSmall)
                && final(self).buffer@ == old(self).buffer@,
    {
        if idx > (LAYOUT_SIZE - 32) / 8 {
            return Err(BchError::BufferTooSmall);
        }
        proof {
            lemma_pow256_values();
        }
        write_scalar(&mut self.buffer, LAYOUT_SB_OFFSET + idx * 8, 8, val as u128)
    }
}

} // verus!

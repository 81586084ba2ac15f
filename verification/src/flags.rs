//! The superblock's packed flags block.
//!
//! Eight independent 64-bit words; each option of the filesystem is a named
//! bit range inside a specific word.  The catalog of ranges is data: one
//! generic masked read-modify-write serves every flag, and setting one flag
//! never alters the bits of another flag sharing its word.

use vstd::prelude::*;

verus! {

use crate::codec::{
    get_bits, le_at, lemma_le_val_bound, lemma_pow256_values, read_word, set_bits,
    set_bits_in_word, stored_le, width_mask,
};
use crate::BchError;

/// A named bit range inside the superblock's packed flag words: the index
/// of the 64-bit word and the bit range `[lo, hi)` within it.
#[derive(Debug, Clone, Copy, PartialEq, Eq, Structural)]
pub struct SuperBlockFlag {
    /// Index of the 64-bit flag word the range lives in.
    pub word: usize,
    /// First bit of the range.
    pub lo: u64,
    /// First bit past the range.
    pub hi: u64,
}

impl SuperBlockFlag {
    /// A well-formed flag names a bit range that fits inside one of the
    /// eight flag words.
    pub open spec fn wf(self) -> bool {
        &&& self.word < 8
        &&& self.lo < self.hi
        &&& self.hi <= 64
        &&& self.hi - self.lo < 64
    }

    /// Bit range of the action to take on error.
    pub fn error_action() -> (r: SuperBlockFlag)
        ensures
            r == (SuperBlockFlag { word: 0, lo: 8, hi: 12 }),
            r.wf(),
    {
        SuperBlockFlag { word: 0, lo: 8, hi: 12 }
    }

    /// Bit range of the btree node size.
    pub fn btree_node_size() -> (r: SuperBlockFlag)
        ensures
            r == (SuperBlockFlag { word: 0, lo: 12, hi: 28 }),
            r.wf(),
    {
        SuperBlockFlag { word: 0, lo: 12, hi: 28 }
    }

    /// Bit range of the percentage of space kept back for garbage
    /// collection.
    pub fn gc_reserve() -> (r: SuperBlockFlag)
        ensures
            r == (SuperBlockFlag { word: 0, lo: 28, hi: 33 }),
            r.wf(),
    {
        SuperBlockFlag { word: 0, lo: 28, hi: 33 }
    }

    /// Bit range of the number of metadata replicas wanted.
    pub fn meta_replicas_want() -> (r: SuperBlockFlag)
        ensures
            r == (SuperBlockFlag { word: 0, lo: 48, hi: 52 }),
            r.wf(),
    {
        SuperBlockFlag { word: 0, lo: 48, hi: 52 }
    }

    /// Bit range of the number of data replicas wanted.
    pub fn data_replicas_want() -> (r: SuperBlockFlag)
        ensures
            r == (SuperBlockFlag { word: 0, lo: 52, hi: 56 }),
            r.wf(),
    {
        SuperBlockFlag { word: 0, lo: 52, hi: 56 }
    }

    /// Bit range of the posix ACL toggle.
    pub fn posix_acl() -> (r: SuperBlockFlag)
        ensures
            r == (SuperBlockFlag { word: 0, lo: 56, hi: 57 }),
            r.wf(),
    {
        SuperBlockFlag { word: 0, lo: 56, hi: 57 }
    }

    /// Bit range of the user quota toggle.
    pub fn usrquota() -> (r: SuperBlockFlag)
        ensures
            r == (SuperBlockFlag { word: 0, lo: 57, hi: 58 }),
            r.wf(),
    {
        SuperBlockFlag { word: 0, lo: 57, hi: 58 }
    }

    /// Bit range of the group quota toggle.
    pub fn grpquota() -> (r: SuperBlockFlag)
        ensures
            r == (SuperBlockFlag { word: 0, lo: 57, hi: 58 }),
            r.wf(),
    {
        SuperBlockFlag { word: 0, lo: 57, hi: 58 }
    }

    /// Bit range of the project quota toggle.
    pub fn prjquota() -> (r: SuperBlockFlag)
        ensures
            r == (SuperBlockFlag { word: 0, lo: 57, hi: 58 }),
            r.wf(),
    {
        SuperBlockFlag { word: 0, lo: 57, hi: 58 }
    }

    /// Bit range of the number of metadata replicas required.
    pub fn meta_replicas_req() -> (r: SuperBlockFlag)
        ensures
            r == (SuperBlockFlag { word: 1, lo: 20, hi: 24 }),
            r.wf(),
    {
        SuperBlockFlag { word: 1, lo: 20, hi: 24 }
    }

    /// Bit range of the number of data replicas required.
    pub fn data_replicas_req() -> (r: SuperBlockFlag)
        ensures
            r == (SuperBlockFlag { word: 1, lo: 24, hi: 28 }),
            r.wf(),
    {
        SuperBlockFlag { word: 1, lo: 24, hi: 28 }
    }

    /// Bit range of the promote target device index.
    pub fn promote_target() -> (r: SuperBlockFlag)
        ensures
            r == (SuperBlockFlag { word: 1, lo: 28, hi: 40 }),
            r.wf(),
    {
        SuperBlockFlag { word: 1, lo: 28, hi: 40 }
    }

    /// Bit range of the foreground target device index.
    pub fn foreground_target() -> (r: SuperBlockFlag)
        ensures
            r == (SuperBlockFlag { word: 1, lo: 40, hi: 52 }),
            r.wf(),
    {
        SuperBlockFlag { word: 1, lo: 40, hi: 52 }
    }

    /// Bit range of the background target device index.
    pub fn background_target() -> (r: SuperBlockFlag)
        ensures
            r == (SuperBlockFlag { word: 1, lo: 52, hi: 64 }),
            r.wf(),
    {
        SuperBlockFlag { word: 1, lo: 52, hi: 64 }
    }

    /// Bit range of the metadata target device index.
    pub fn metadata_target() -> (r: SuperBlockFlag)
        ensures
            r == (SuperBlockFlag { word: 3, lo: 16, hi: 28 }),
            r.wf(),
    {
        SuperBlockFlag { word: 3, lo: 16, hi: 28 }
    }
}

/// The packed flags block over its backing bytes.
pub struct SuperBlockFlags {
    /// Backing bytes of the block.
    pub buffer: Vec<u8>,
}

impl SuperBlockFlags {
    /// Create a flags view of the given bytes.
    pub fn from(buf: Vec<u8>) -> (r: SuperBlockFlags)
        ensures
            r.buffer@ == buf@,
    {
        SuperBlockFlags { buffer: buf }
    }

    /// Set the named flag's bit range to the given value, leaving every
    /// other bit of the shared word untouched.  A value wider than the
    /// range is rejected and the buffer left unchanged.
    pub fn set_flag(&mut self, flag: SuperBlockFlag, val: u64) -> (r: Result<(), BchError>)
        requires
            flag.wf(),
        ensures
            ({
                let word_off = flag.word * 8;
                let width = (flag.hi - flag.lo) as u64;
                &&& (old(self).buffer@.len() < word_off + 8 ==> r == Err::<(), BchError>(
                    BchError::BufferTooSmall,
                ) && final(self).buffer@ == old(self).buffer@)
                &&& (old(self).buffer@.len() >= word_off + 8 && val > width_mask(width) ==> r
                    == Err::<(), BchError>(
                    BchError::InvalidValue { value: val, max: width_mask(width) },
                ) && final(self).buffer@ == old(self).buffer@)
                &&& (old(self).buffer@.len() >= word_off + 8 && val <= width_mask(width) ==> r
                    == Ok::<(), BchError>(()) && stored_le(
                    old(self).buffer@,
                    final(self).buffer@,
                    word_off as int,
                    8,
                    set_bits(
                        le_at(old(self).buffer@, word_off as int, 8) as u64,
                        flag.lo,
                        width,
                        val,
                    ) as nat,
                ))
            }),
    {
        let width: u64 = flag.hi - flag.lo;
        proof {
            assert(1u64 << width >= 1) by (bit_vector)
                requires
                    width < 64,
            ;
        }
        let max: u64 = (1u64 << width) - 1;
        let word_off: usize = flag.word * 8;
        if self.buffer.len() < word_off + 8 {
            Err(BchError::BufferTooSmall)
        } else if val > max {
            Err(BchError::InvalidValue { value: val, max })
        } else {
            set_bits_in_word(&mut self.buffer, word_off, flag.lo, width, val);
            Ok(())
        }
    }

    /// Read the named flag's bit range back out of the shared word.
    pub fn get_flag(&self, flag: SuperBlockFlag) -> (r: Result<u64, BchError>)
        requires
            flag.wf(),
        ensures
            ({
                let word_off = flag.word * 8;
                let width = (flag.hi - flag.lo) as u64;
                &&& (self.buffer@.len() < word_off + 8 ==> r == Err::<u64, BchError>(
                    BchError::BufferTooSmall,
                ))
                &&& (self.buffer@.len() >= word_off + 8 ==> r == Ok::<u64, BchError>(
                    get_bits(le_at(self.buffer@, word_off as int, 8) as u64, flag.lo, width),
                ))
            }),
    {
        let width: u64 = flag.hi - flag.lo;
        let word_off: usize = flag.word * 8;
        if self.buffer.len() < word_off + 8 {
            Err(BchError::BufferTooSmall)
        } else {
            proof {
                lemma_le_val_bound(self.buffer@.subrange(word_off as int, word_off + 8));
                lemma_pow256_values();
            }
            let w = read_word(&self.buffer, word_off);
            Ok(crate::codec::extract_bits(w, flag.lo, width))
        }
    }
}

} // verus!

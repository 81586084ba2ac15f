//! The per-device member record.
//!
//! A 56-byte record appended inside the superblock's Members field, one per
//! device: a per-member UUID, bucket count, first usable bucket, bucket
//! size, and a packed flags word whose named bit ranges carry the
//! replacement policy, discard flag, allowed data types, group and
//! durability.

use vstd::prelude::*;

verus! {

use crate::codec::{
    get_bits, le_at, lemma_le_val_bound, lemma_pow256_values, read_word, set_bits,
    set_bits_in_word, stored_le, width_mask, write_scalar,
};
use crate::BchError;

/// Byte offset of the member UUID field.
pub const MEMBER_UUID: usize = 0;

/// Byte offset of the bucket count field.
pub const MEMBER_N_BUCKETS: usize = 16;

/// Byte offset of the first usable bucket field.
pub const MEMBER_FIRST_BUCKET: usize = 24;

/// Byte offset of the bucket size field.
pub const MEMBER_BUCKET_SIZE: usize = 26;

/// Byte offset of the packed flag words.
pub const MEMBER_FLAGS: usize = 40;

/// Byte offset just past the packed flag words.
pub const MEMBER_FLAGS_END: usize = 56;

/// Size in bytes of one member record.
pub const MEMBER_SIZE: usize = 56;

/// A named bit range inside a member record's packed flag words: the index
/// of the 64-bit word and the bit range `[lo, hi)` within it.
#[derive(Debug, Clone, Copy, PartialEq, Eq, Structural)]
pub struct MemberFlag {
    /// Index of the 64-bit flag word the range lives in.
    pub word: usize,
    /// First bit of the range.
    pub lo: u64,
    /// First bit past the range.
    pub hi: u64,
}

impl MemberFlag {
    /// A well-formed flag names a bit range that fits inside one of the
    /// record's flag words.
    pub open spec fn wf(self) -> bool {
        &&& self.word < 2
        &&& self.lo < self.hi
        &&& self.hi <= 64
        &&& self.hi - self.lo < 64
    }

    /// Bit range of the replacement policy for the member device.
    pub fn replacement() -> (r: MemberFlag)
        ensures
            r == (MemberFlag { word: 0, lo: 10, hi: 14 }),
            r.wf(),
    {
        MemberFlag { word: 0, lo: 10, hi: 14 }
    }

    /// Bit range of the discard flag for the member device.
    pub fn discard() -> (r: MemberFlag)
        ensures
            r == (MemberFlag { word: 0, lo: 14, hi: 15 }),
            r.wf(),
    {
        MemberFlag { word: 0, lo: 14, hi: 15 }
    }

    /// Bit range of the data types allowed on the member device.
    pub fn data_allowed() -> (r: MemberFlag)
        ensures
            r == (MemberFlag { word: 0, lo: 15, hi: 20 }),
            r.wf(),
    {
        MemberFlag { word: 0, lo: 15, hi: 20 }
    }

    /// Bit range of the group the member device belongs to.
    pub fn group() -> (r: MemberFlag)
        ensures
            r == (MemberFlag { word: 0, lo: 20, hi: 28 }),
            r.wf(),
    {
        MemberFlag { word: 0, lo: 20, hi: 28 }
    }

    /// Bit range of the durability of the member device.
    pub fn durability() -> (r: MemberFlag)
        ensures
            r == (MemberFlag { word: 0, lo: 28, hi: 30 }),
            r.wf(),
    {
        MemberFlag { word: 0, lo: 28, hi: 30 }
    }
}

/// A member record over its backing bytes.
pub struct MemberField {
    /// Backing bytes of the record.
    pub buffer: Vec<u8>,
}

impl MemberField {
    /// Create a member record view of the given bytes.
    pub fn from(buf: Vec<u8>) -> (r: MemberField)
        ensures
            r.buffer@ == buf@,
    {
        MemberField { buffer: buf }
    }

    /// Set the UUID of this member device.
    pub fn set_uuid(&mut self, uuid: u128) -> (r: Result<(), BchError>)
        ensures
            old(self).buffer@.len() >= 16 ==> r == Ok::<(), BchError>(()) && stored_le(
                old(self).buffer@,
                final(self).buffer@,
                0,
                16,
                uuid as nat,
            ),
            old(self).buffer@.len() < 16 ==> r == Err::<(), BchError>(BchError::BufferTooSmall)
                && final(self).buffer@ == old(self).buffer@,
    {
        proof {
            lemma_pow256_values();
        }
        write_scalar(&mut self.buffer, MEMBER_UUID, 16, uuid)
    }

    /// Set the number of buckets of this member device.
    pub fn set_n_buckets(&mut self, val: u64) -> (r: Result<(), BchError>)
        ensures
            old(self).buffer@.len() >= 24 ==> r == Ok::<(), BchError>(()) && stored_le(
                old(self).buffer@,
                final(self).buffer@,
                16,
                8,
                val as nat,
            ),
            old(self).buffer@.len() < 24 ==> r == Err::<(), BchError>(BchError::BufferTooSmall)
                && final(self).buffer@ == old(self).buffer@,
    {
        proof {
            lemma_pow256_values();
        }
        write_scalar(&mut self.buffer, MEMBER_N_BUCKETS, 8, val as u128)
    }

    /// Set the first usable bucket index of this member device.
    pub fn set_first_bucket(&mut self, val: u16) -> (r: Result<(), BchError>)
        ensures
            old(self).buffer@.len() >= 26 ==> r == Ok::<(), BchError>(()) && stored_le(
                old(self).buffer@,
                final(self).buffer@,
                24,
                2,
                val as nat,
            ),
            old(self).buffer@.len() < 26 ==> r == Err::<(), BchError>(BchError::BufferTooSmall)
                && final(self).buffer@ == old(self).buffer@,
    {
        proof {
            lemma_pow256_values();
        }
        write_scalar(&mut self.buffer, MEMBER_FIRST_BUCKET, 2, val as u128)
    }

    /// Set the bucket size of this member device, in sectors.
    pub fn set_bucket_size(&mut self, val: u16) -> (r: Result<(), BchError>)
        ensures
            old(self).buffer@.len() >= 28 ==> r == Ok::<(), BchError>(()) && stored_le(
                old(self).buffer@,
                final(self).buffer@,
                26,
                2,
                val as nat,
            ),
            old(self).buffer@.len() < 28 ==> r == Err::<(), BchError>(BchError::BufferTooSmall)
                && final(self).buffer@ == old(self).buffer@,
    {
        proof {
            lemma_pow256_values();
        }
        write_scalar(&mut self.buffer, MEMBER_BUCKET_SIZE, 2, val as u128)
    }

    /// Set the named flag's bit range to the given value, leaving every
    /// other bit of the shared word untouched.  A value wider than the
    /// range is rejected and the buffer left unchanged.
    pub fn set_flag(&mut self, flag: MemberFlag, val: u64) -> (r: Result<(), BchError>)
        requires
            flag.wf(),
        ensures
            ({
                let word_off = 40 + flag.word * 8;
                let width = (flag.hi - flag.lo) as u64;
                &&& (old(self).buffer@.len() < word_off + 8 ==> r == Err::<(), BchError>(
                    BchError::BufferTooSmall,
                ) && final(self).buffer@ == old(self).buffer@)
                &&& (old(self).buffer@.len() >= word_off + 8 && val > width_mask(width) ==> r
                    == Err::<(), BchError>(
                    BchError::InvalidValue { value: val, max: width_mask(width) },
                ) && final(self).buffer@ == old(self).buffer@)
                &&& (old(self).buffer@.len() >= word_off + 8 && val <= width_mask(width) ==> r
                    == Ok::<(), BchError>(()) && stored_le(
                    old(self).buffer@,
                    final(self).buffer@,
                    word_off as int,
                    8,
                    set_bits(
                        le_at(old(self).buffer@, word_off as int, 8) as u64,
                        flag.lo,
                        width,
                        val,
                    ) as nat,
                ))
            }),
    {
        let width: u64 = flag.hi - flag.lo;
        proof {
            assert(1u64 << width >= 1) by (bit_vector)
                requires
                    width < 64,
            ;
        }
        let max: u64 = (1u64 << width) - 1;
        let word_off: usize = MEMBER_FLAGS + flag.word * 8;
        if self.buffer.len() < word_off + 8 {
            Err(BchError::BufferTooSmall)
        } else if val > max {
            Err(BchError::InvalidValue { value: val, max })
        } else {
            set_bits_in_word(&mut self.buffer, word_off, flag.lo, width, val);
            Ok(())
        }
    }

    /// Read the named flag's bit range back out of the shared word.
    pub fn get_flag(&self, flag: MemberFlag) -> (r: Result<u64, BchError>)
        requires
            flag.wf(),
        ensures
            ({
                let word_off = 40 + flag.word * 8;
                let width = (flag.hi - flag.lo) as u64;
                &&& (self.buffer@.len() < word_off + 8 ==> r == Err::<u64, BchError>(
                    BchError::BufferTooSmall,
                ))
                &&& (self.buffer@.len() >= word_off + 8 ==> r == Ok::<u64, BchError>(
                    get_bits(le_at(self.buffer@, word_off as int, 8) as u64, flag.lo, width),
                ))
            }),
    {
        let width: u64 = flag.hi - flag.lo;
        let word_off: usize = MEMBER_FLAGS + flag.word * 8;
        if self.buffer.len() < word_off + 8 {
            Err(BchError::BufferTooSmall)
        } else {
            proof {
                lemma_le_val_bound(self.buffer@.subrange(word_off as int, word_off + 8));
                lemma_pow256_values();
            }
            let w = read_word(&self.buffer, word_off);
            Ok(crate::codec::extract_bits(w, flag.lo, width))
        }
    }
}

} // verus!

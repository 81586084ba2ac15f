//! Little-endian byte codec.
//!
//! Every on-disk record is a byte buffer; scalar fields are little-endian
//! integers at fixed byte ranges, and packed flags are bit ranges inside a
//! 64-bit word.  The spec model is `le_val` (a byte string read as a
//! little-endian number) and `le_bytes` (a number written as a byte string);
//! the bit-range model is `set_bits` / `get_bits` on a 64-bit word.

use vstd::prelude::*;

verus! {

use vstd::arithmetic::div_mod::{lemma_div_denominator, lemma_fundamental_div_mod};
use vstd::pervasive::VecAdditionalExecFns;

use crate::BchError;

/// 256 to the power `n`: the number of distinct `n`-byte strings.
pub open spec fn pow256(n: nat) -> nat
    decreases n,
{
    if n == 0 {
        1
    } else {
        256 * pow256((n - 1) as nat)
    }
}

/// The number a byte string denotes when read little-endian
/// (first byte least significant).
pub open spec fn le_val(s: Seq<u8>) -> nat
    decreases s.len(),
{
    if s.len() == 0 {
        0
    } else {
        s[0] as nat + 256 * le_val(s.skip(1))
    }
}

/// The `n`-byte little-endian encoding of `v` (modulo `pow256(n)`).
pub open spec fn le_bytes(v: nat, n: nat) -> Seq<u8>
    decreases n,
{
    if n == 0 {
        Seq::empty()
    } else {
        seq![(v % 256) as u8] + le_bytes(v / 256, (n - 1) as nat)
    }
}

/// The little-endian number stored in `s` at byte range `[off, off + n)`.
pub open spec fn le_at(s: Seq<u8>, off: int, n: int) -> nat {
    le_val(s.subrange(off, off + n))
}

/// `b` equals `a` everywhere outside the byte range `[off, off + n)`.
pub open spec fn same_outside(a: Seq<u8>, b: Seq<u8>, off: int, n: int) -> bool {
    &&& b.len() == a.len()
    &&& forall|k: int| 0 <= k < a.len() && !(off <= k < off + n) ==> b[k] == a[k]
}

/// `b` is `a` with the little-endian encoding of `v` stored at
/// `[off, off + n)` and every other byte unchanged.
pub open spec fn stored_le(a: Seq<u8>, b: Seq<u8>, off: int, n: int, v: nat) -> bool {
    &&& same_outside(a, b, off, n)
    &&& b.subrange(off, off + n) == le_bytes(v, n as nat)
}

/// `b` is `a` with the bytes of `src` copied to offset `off` and every
/// other byte unchanged.
pub open spec fn stored_bytes(a: Seq<u8>, b: Seq<u8>, off: int, src: Seq<u8>) -> bool {
    &&& same_outside(a, b, off, src.len() as int)
    &&& b.subrange(off, off + src.len()) == src
}

/// Concrete powers of 256 that the byte widths used here reach.
pub proof fn lemma_pow256_values()
    ensures
        pow256(1) == 0x100,
        pow256(2) == 0x10000,
        pow256(4) == 0x100000000,
        pow256(8) == 0x10000000000000000,
        pow256(15) == 0x1000000000000000000000000000000,
        pow256(16) == 0x100000000000000000000000000000000,
{
    assert(pow256(0) == 1);
    assert(pow256(1) == 256 * pow256(0));
    assert(pow256(2) == 256 * pow256(1));
    assert(pow256(3) == 256 * pow256(2));
    assert(pow256(4) == 256 * pow256(3));
    assert(pow256(5) == 256 * pow256(4));
    assert(pow256(6) == 256 * pow256(5));
    assert(pow256(7) == 256 * pow256(6));
    assert(pow256(8) == 256 * pow256(7));
    assert(pow256(9) == 256 * pow256(8));
    assert(pow256(10) == 256 * pow256(9));
    assert(pow256(11) == 256 * pow256(10));
    assert(pow256(12) == 256 * pow256(11));
    assert(pow256(13) == 256 * pow256(12));
    assert(pow256(14) == 256 * pow256(13));
    assert(pow256(15) == 256 * pow256(14));
    assert(pow256(16) == 256 * pow256(15));
}

pub proof fn lemma_pow256_pos(n: nat)
    ensures
        pow256(n) >= 1,
    decreases n,
{
    if n > 0 {
        lemma_pow256_pos((n - 1) as nat);
    }
}

pub proof fn lemma_pow256_increases(m: nat, n: nat)
    requires
        m <= n,
    ensures
        pow256(m) <= pow256(n),
    decreases n,
{
    if m < n {
        lemma_pow256_increases(m, (n - 1) as nat);
        lemma_pow256_pos((n - 1) as nat);
    }
}

pub proof fn lemma_le_bytes_len(v: nat, n: nat)
    ensures
        le_bytes(v, n).len() == n,
    decreases n,
{
    if n > 0 {
        lemma_le_bytes_len(v / 256, (n - 1) as nat);
    }
}

/// A byte string of length `n` denotes a number below `pow256(n)`.
pub proof fn lemma_le_val_bound(s: Seq<u8>)
    ensures
        le_val(s) < pow256(s.len()),
    decreases s.len(),
{
    if s.len() > 0 {
        lemma_le_val_bound(s.skip(1));
    }
}

/// Round trip: writing `v` on `n` bytes and reading the bytes back yields
/// `v` again, for every `v` that fits in `n` bytes.
pub proof fn lemma_le_round_trip(v: nat, n: nat)
    requires
        v < pow256(n),
    ensures
        le_val(le_bytes(v, n)) == v,
    decreases n,
{
    if n > 0 {
        let rest = le_bytes(v / 256, (n - 1) as nat);
        assert((seq![(v % 256) as u8] + rest).skip(1) =~= rest);
        lemma_le_round_trip(v / 256, (n - 1) as nat);
        lemma_fundamental_div_mod(v as int, 256);
    }
}

/// Byte `i` of the `n`-byte encoding of `v` is byte 0 of `v / 256^i`.
pub proof fn lemma_le_bytes_index(v: nat, n: nat, i: nat)
    requires
        i < n,
    ensures
        le_bytes(v, n).len() == n,
        le_bytes(v, n)[i as int] == ((v / pow256(i)) % 256) as u8,
    decreases i,
{
    lemma_le_bytes_len(v, n);
    lemma_le_bytes_len(v / 256, (n - 1) as nat);
    if i == 0 {
        assert(le_bytes(v, n)[0] == (v % 256) as u8);
        assert(pow256(0) == 1);
        assert(v / 1 == v) by (nonlinear_arith);
    } else {
        lemma_le_bytes_index(v / 256, (n - 1) as nat, (i - 1) as nat);
        lemma_pow256_pos((i - 1) as nat);
        lemma_div_denominator(v as int, 256, pow256((i - 1) as nat) as int);
        assert(le_bytes(v, n)[i as int] == le_bytes(v / 256, (n - 1) as nat)[i - 1]);
    }
}

/// An all-zero byte string denotes zero.
pub proof fn lemma_le_val_zero(s: Seq<u8>)
    requires
        forall|k: int| 0 <= k < s.len() ==> s[k] == 0u8,
    ensures
        le_val(s) == 0,
    decreases s.len(),
{
    if s.len() > 0 {
        lemma_le_val_zero(s.skip(1));
    }
}

/// A value stored little-endian reads back as itself.
pub proof fn lemma_stored_le_at(a: Seq<u8>, b: Seq<u8>, off: int, n: int, v: nat)
    requires
        stored_le(a, b, off, n, v),
        0 <= off,
        0 <= n,
        off + n <= b.len(),
        v < pow256(n as nat),
    ensures
        le_at(b, off, n) == v,
{
    lemma_le_round_trip(v, n as nat);
}

/// A field read inside a copied block equals the same field read in the
/// source block.
pub proof fn lemma_nested_le_at(b: Seq<u8>, off: int, src: Seq<u8>, a: int, l: int)
    requires
        0 <= off,
        off + src.len() <= b.len(),
        b.subrange(off, off + src.len()) == src,
        0 <= a,
        0 <= l,
        a + l <= src.len(),
    ensures
        le_at(b, off + a, l) == le_at(src, a, l),
        forall|j: int| 0 <= j < src.len() ==> b[off + j] == src[j],
{
    assert(forall|j: int| 0 <= j < src.len() ==> b[off + j] == src.subrange(0, src.len() as int)[j]
        && src.subrange(0, src.len() as int)[j] == src[j]);
    assert(b.subrange(off + a, off + a + l) =~= src.subrange(a, a + l));
}

/// A subrange of a subrange is the corresponding subrange of the whole.
pub proof fn lemma_subrange_of_subrange(s: Seq<u8>, i: int, j: int, a: int, b: int)
    requires
        0 <= i <= j <= s.len(),
        0 <= a <= b <= j - i,
    ensures
        s.subrange(i, j).subrange(a, b) == s.subrange(i + a, i + b),
{
    assert(s.subrange(i, j).subrange(a, b) =~= s.subrange(i + a, i + b));
}

/// Read the `n`-byte little-endian integer at offset `off`.
pub fn read_le(buf: &Vec<u8>, off: usize, n: usize) -> (r: u128)
    requires
        n <= 16,
        off + n <= buf.len(),
    ensures
        r as nat == le_at(buf@, off as int, n as int),
{
    let mut r: u128 = 0;
    let mut i: usize = n;
    proof {
        assert(buf@.subrange((off + n) as int, (off + n) as int) =~= Seq::<u8>::empty());
    }
    while i > 0
        invariant
            i <= n,
            n <= 16,
            off + n <= buf.len(),
            r as nat == le_val(buf@.subrange((off + i) as int, (off + n) as int)),
        decreases i,
    {
        i = i - 1;
        let b = buf[off + i];
        proof {
            let tail = buf@.subrange((off + i + 1) as int, (off + n) as int);
            lemma_le_val_bound(tail);
            lemma_pow256_increases(tail.len() as nat, 15);
            lemma_pow256_values();
        }
        r = r * 256 + (b as u128);
        proof {
            let s = buf@.subrange((off + i) as int, (off + n) as int);
            assert(s.skip(1) =~= buf@.subrange((off + i + 1) as int, (off + n) as int));
        }
    }
    r
}

/// Write `v` as an `n`-byte little-endian integer at offset `off`,
/// leaving every byte outside the range unchanged.
pub fn write_le(buf: &mut Vec<u8>, off: usize, n: usize, v: u128)
    requires
        n <= 16,
        off + n <= old(buf).len(),
        (v as nat) < pow256(n as nat),
    ensures
        stored_le(old(buf)@, final(buf)@, off as int, n as int, v as nat),
{
    let blen: usize = buf.len();
    let mut w: u128 = v;
    let mut i: usize = 0;
    proof {
        lemma_le_bytes_len(v as nat, n as nat);
        assert(pow256(0) == 1);
        assert((v as nat) / 1 == v as nat) by (nonlinear_arith);
    }
    while i < n
        invariant
            i <= n,
            n <= 16,
            off + n <= blen,
            buf@.len() == blen,
            buf@.len() == old(buf)@.len(),
            le_bytes(v as nat, n as nat).len() == n,
            w as nat == (v as nat) / pow256(i as nat),
            forall|k: int|
                0 <= k < buf@.len() && !(off <= k < off + i) ==> buf@[k] == old(buf)@[k],
            forall|k: int|
                off <= k < off + i ==> buf@[k] == le_bytes(v as nat, n as nat)[k - off],
        decreases n - i,
    {
        let b: u8 = (w % 256) as u8;
        buf.set(off + i, b);
        proof {
            lemma_le_bytes_index(v as nat, n as nat, i as nat);
            lemma_pow256_pos(i as nat);
            lemma_div_denominator(v as int, pow256(i as nat) as int, 256);
        }
        w = w / 256;
        i = i + 1;
    }
    proof {
        lemma_le_bytes_len(v as nat, n as nat);
        assert(buf@.subrange(off as int, (off + n) as int) =~= le_bytes(v as nat, n as nat));
    }
}

/// Copy `src` into `buf` at offset `off`, leaving every byte outside the
/// range unchanged.
pub fn copy_bytes(buf: &mut Vec<u8>, off: usize, src: &Vec<u8>)
    requires
        off + src.len() <= old(buf).len(),
    ensures
        stored_bytes(old(buf)@, final(buf)@, off as int, src@),
{
    let blen: usize = buf.len();
    let mut i: usize = 0;
    while i < src.len()
        invariant
            i <= src.len(),
            off + src.len() <= blen,
            buf@.len() == blen,
            buf@.len() == old(buf)@.len(),
            forall|k: int|
                0 <= k < buf@.len() && !(off <= k < off + i) ==> buf@[k] == old(buf)@[k],
            forall|k: int| off <= k < off + i ==> buf@[k] == src@[k - off],
        decreases src.len() - i,
    {
        let b = src[i];
        buf.set(off + i, b);
        i = i + 1;
    }
    proof {
        assert(buf@.subrange(off as int, off + src@.len() as int) =~= src@);
    }
}

/// Read the `n`-byte little-endian field ending at `off + n`, if the
/// buffer reaches that far.
pub fn read_scalar(buf: &Vec<u8>, off: usize, n: usize) -> (r: Result<u128, BchError>)
    requires
        1 <= n <= 16,
        off + n <= usize::MAX,
    ensures
        buf@.len() >= off + n ==> (r matches Ok(x) && x as nat == le_at(
            buf@,
            off as int,
            n as int,
        )),
        buf@.len() < off + n ==> r == Err::<u128, BchError>(BchError::BufferTooSmall),
{
    if buf.len() < off + n {
        Err(BchError::BufferTooSmall)
    } else {
        Ok(read_le(buf, off, n))
    }
}

/// Write the `n`-byte little-endian field ending at `off + n`, if the
/// buffer reaches that far; a too-short buffer is left untouched.
pub fn write_scalar(buf: &mut Vec<u8>, off: usize, n: usize, v: u128) -> (r: Result<
    (),
    BchError,
>)
    requires
        1 <= n <= 16,
        off + n <= usize::MAX,
        (v as nat) < pow256(n as nat),
    ensures
        old(buf)@.len() >= off + n ==> r == Ok::<(), BchError>(()) && stored_le(
            old(buf)@,
            final(buf)@,
            off as int,
            n as int,
            v as nat,
        ),
        old(buf)@.len() < off + n ==> r == Err::<(), BchError>(BchError::BufferTooSmall)
            && final(buf)@ == old(buf)@,
{
    if buf.len() < off + n {
        Err(BchError::BufferTooSmall)
    } else {
        write_le(buf, off, n, v);
        Ok(())
    }
}

/// Read the byte at `off`, if the buffer reaches past it.
pub fn read_byte(buf: &Vec<u8>, off: usize) -> (r: Result<u8, BchError>)
    ensures
        buf@.len() > off ==> r == Ok::<u8, BchError>(buf@[off as int]),
        buf@.len() <= off ==> r == Err::<u8, BchError>(BchError::BufferTooSmall),
{
    if buf.len() <= off {
        Err(BchError::BufferTooSmall)
    } else {
        Ok(buf[off])
    }
}

/// Write the byte at `off`, if the buffer reaches past it; a too-short
/// buffer is left untouched.
pub fn write_byte(buf: &mut Vec<u8>, off: usize, v: u8) -> (r: Result<(), BchError>)
    ensures
        old(buf)@.len() > off ==> r == Ok::<(), BchError>(())
            && final(buf)@ == old(buf)@.update(off as int, v),
        old(buf)@.len() <= off ==> r == Err::<(), BchError>(BchError::BufferTooSmall)
            && final(buf)@ == old(buf)@,
{
    if buf.len() <= off {
        Err(BchError::BufferTooSmall)
    } else {
        buf.set(off, v);
        Ok(())
    }
}

/// A fresh all-zero buffer of the given length.
pub fn zero_vec(n: usize) -> (r: Vec<u8>)
    ensures
        r@.len() == n,
        forall|k: int| 0 <= k < n ==> r@[k] == 0u8,
{
    let mut v: Vec<u8> = Vec::new();
    let mut i: usize = 0;
    while i < n
        invariant
            i <= n,
            v@.len() == i,
            forall|k: int| 0 <= k < i ==> v@[k] == 0u8,
        decreases n - i,
    {
        v.push(0u8);
        i = i + 1;
    }
    v
}

/// An owned copy of a byte buffer.
pub fn clone_bytes(src: &Vec<u8>) -> (r: Vec<u8>)
    ensures
        r@ == src@,
{
    let mut v: Vec<u8> = Vec::new();
    let mut i: usize = 0;
    while i < src.len()
        invariant
            i <= src.len(),
            v@.len() == i,
            forall|k: int| 0 <= k < i ==> v@[k] == src@[k],
        decreases src.len() - i,
    {
        let b = src[i];
        v.push(b);
        i = i + 1;
    }
    proof {
        assert(v@ =~= src@);
    }
    v
}

/// The all-ones mask of a bit range `width` bits wide.
pub open spec fn width_mask(width: u64) -> u64
    recommends
        width < 64,
{
    ((1u64 << width) - 1) as u64
}

/// `w` with bits `[lo, lo + width)` replaced by `v` and every other bit
/// unchanged.
pub open spec fn set_bits(w: u64, lo: u64, width: u64, v: u64) -> u64 {
    (w & !(width_mask(width) << lo)) | (v << lo)
}

/// Bits `[lo, lo + width)` of `w`, shifted down to the low end.
pub open spec fn get_bits(w: u64, lo: u64, width: u64) -> u64 {
    (w >> lo) & width_mask(width)
}

/// Round trip: reading a bit range back after setting it yields the value
/// that was set, for every value that fits the range's width.
pub proof fn lemma_bits_round_trip(w: u64, lo: u64, width: u64, v: u64)
    requires
        1 <= width < 64,
        lo + width <= 64,
        v <= width_mask(width),
    ensures
        get_bits(set_bits(w, lo, width, v), lo, width) == v,
{
    assert((((w & !((((1u64 << width) - 1) as u64) << lo)) | (v << lo)) >> lo) & (((1u64 << width)
        - 1) as u64) == v) by (bit_vector)
        requires
            1 <= width < 64,
            lo + width <= 64,
            v <= ((1u64 << width) - 1) as u64,
    ;
}

/// Bit isolation: setting one bit range never alters any bit outside the
/// range, so flags packed into one shared word cannot disturb each other.
pub proof fn lemma_bits_isolation(w: u64, lo: u64, width: u64, v: u64, i: u64)
    requires
        1 <= width < 64,
        lo + width <= 64,
        v <= width_mask(width),
        i < 64,
        i < lo || lo + width <= i,
    ensures
        (set_bits(w, lo, width, v) >> i) & 1 == (w >> i) & 1,
{
    assert((((w & !((((1u64 << width) - 1) as u64) << lo)) | (v << lo)) >> i) & 1 == (w >> i) & 1)
        by (bit_vector)
        requires
            1 <= width < 64,
            lo + width <= 64,
            v <= ((1u64 << width) - 1) as u64,
            i < 64,
            i < lo || lo + width <= i,
    ;
}

/// Read the 64-bit word stored little-endian at byte offset `word_off`.
pub fn read_word(buf: &Vec<u8>, word_off: usize) -> (r: u64)
    requires
        word_off + 8 <= buf.len(),
    ensures
        r as nat == le_at(buf@, word_off as int, 8),
{
    proof {
        lemma_le_val_bound(buf@.subrange(word_off as int, word_off + 8));
        lemma_pow256_values();
    }
    let r = read_le(buf, word_off, 8);
    r as u64
}

/// Replace bits `[lo, lo + width)` of the 64-bit little-endian word at byte
/// offset `word_off` with `v`, leaving all other bits of the word and all
/// other bytes of the buffer unchanged.
pub fn set_bits_in_word(buf: &mut Vec<u8>, word_off: usize, lo: u64, width: u64, v: u64)
    requires
        word_off + 8 <= old(buf).len(),
        1 <= width < 64,
        lo + width <= 64,
        v <= width_mask(width),
    ensures
        stored_le(
            old(buf)@,
            final(buf)@,
            word_off as int,
            8,
            set_bits((le_at(old(buf)@, word_off as int, 8)) as u64, lo, width, v) as nat,
        ),
{
    let w = read_word(buf, word_off);
    proof {
        assert(1u64 << width >= 1) by (bit_vector)
            requires
                width < 64,
        ;
    }
    let mask: u64 = (1u64 << width) - 1;
    let nw: u64 = (w & !(mask << lo)) | (v << lo);
    proof {
        lemma_pow256_values();
    }
    write_le(buf, word_off, 8, nw as u128);
}

/// Extract bits `[lo, lo + width)` of `w` as a value at the low end.
pub fn extract_bits(w: u64, lo: u64, width: u64) -> (r: u64)
    requires
        1 <= width < 64,
        lo + width <= 64,
    ensures
        r == get_bits(w, lo, width),
{
    proof {
        assert(1u64 << width >= 1) by (bit_vector)
            requires
                width < 64,
        ;
    }
    let mask: u64 = (1u64 << width) - 1;
    (w >> lo) & mask
}

} // verus!

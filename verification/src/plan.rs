//! The bucket size planner.
//!
//! From a device's size, its native block size and the requested format
//! block size, choose the allocation bucket size and the bucket count.
//! The growth rule for large devices is a tuning choice of the
//! filesystem's allocator design, kept exactly for on-disk compatibility.

use vstd::prelude::*;

verus! {

use vstd::arithmetic::div_mod::lemma_fundamental_div_mod;
use vstd::arithmetic::mul::lemma_mul_upper_bound;
use crate::{BchError, ConfigIssue};

/// The fewest buckets a device may be split into.
pub const MIN_BUCKET_COUNT: u64 = 64;

/// The smallest bucket size, in sectors.
pub const MIN_BUCKET_SIZE: u64 = 512;

/// The largest bucket size the growth rule may reach, in sectors.
pub const BUCKET_SIZE_CAP: u64 = 2048;

/// The least device size that leaves room for the minimum number of
/// buckets of size `b`.
pub open spec fn min_size_spec(b: nat) -> nat {
    b * 64
}

/// The floor of the base-2 logarithm (0 for inputs below 2).
pub open spec fn log2_floor_spec(x: nat) -> nat
    decreases x,
{
    if x < 2 {
        0
    } else {
        1 + log2_floor_spec(x / 2)
    }
}

/// The planner's outcome: the device size in sectors, the native block
/// size and the requested block size in bytes.
pub open spec fn plan_spec(size: u64, native: u64, block: u64) -> Result<(u64, u64), BchError>
    recommends
        512 <= block <= 32768,
{
    let b1: nat = if block >= native {
        block as nat
    } else {
        native as nat
    };
    if (size as nat) < min_size_spec(b1) {
        Err(BchError::Config(ConfigIssue::DeviceTooSmall { size, min: 32768 }))
    } else {
        let scale0 = log2_floor_spec((size as nat) / ((block as nat) * 64)) / 4;
        let scale = if scale0 >= 1 {
            scale0
        } else {
            1
        };
        let grown = b1 * scale;
        let bucket: nat = if grown <= 2048 {
            grown
        } else {
            2048
        };
        let nbuckets = (size as nat) / bucket;
        if bucket * 512 < block as nat {
            Err(
                BchError::Config(
                    ConfigIssue::BlockSizeTooSmallForBucket {
                        bucket_size: bucket as u64,
                        block_size: block,
                    },
                ),
            )
        } else if nbuckets < 64 {
            Err(BchError::Config(ConfigIssue::TooFewBuckets { nbuckets: nbuckets as u64 }))
        } else {
            Ok((bucket as u64, nbuckets as u64))
        }
    }
}

/// Division by 64 against multiplication by 64: the planner's size check
/// in either form.
proof fn lemma_div64_cmp(a: nat, b: nat)
    ensures
        (a / 64 < b) <==> (a < b * 64),
{
    lemma_fundamental_div_mod(a as int, 64);
}

/// A quotient never exceeds its dividend's quotient by the same divisor.
proof fn lemma_div_le(a: nat, b: nat, d: nat)
    requires
        a <= b,
        d >= 1,
    ensures
        a / d <= b / d,
{
    vstd::arithmetic::div_mod::lemma_div_is_ordered(a as int, b as int, d as int);
}

/// The floor log2 of a value below `2^k` is below `k`.
proof fn lemma_log2_floor_bound(x: nat, k: nat)
    requires
        k >= 1,
        x < vstd::arithmetic::power2::pow2(k),
    ensures
        log2_floor_spec(x) < k,
    decreases k,
{
    if x < 2 {
    } else {
        vstd::arithmetic::power2::lemma2_to64();
        vstd::arithmetic::power2::lemma_pow2_unfold(k);
        assert(k >= 2);
        lemma_fundamental_div_mod(x as int, 2);
        lemma_log2_floor_bound(x / 2, (k - 1) as nat);
    }
}

/// The floor of the base-2 logarithm, computed by repeated halving.
pub fn log2_floor(x: u64) -> (r: u64)
    ensures
        r as nat == log2_floor_spec(x as nat),
        r <= 63,
{
    proof {
        vstd::arithmetic::power2::lemma2_to64();
        lemma_log2_floor_bound(x as nat, 64);
    }
    let mut y: u64 = x;
    let mut r: u64 = 0;
    while y >= 2
        invariant
            log2_floor_spec(x as nat) == r + log2_floor_spec(y as nat),
            log2_floor_spec(x as nat) <= 63,
        decreases y,
    {
        y = y / 2;
        r = r + 1;
    }
    r
}

/// Choose the bucket size and bucket count for one device.
///
/// Deterministic: the result is a function of the three inputs alone, and
/// on success the bucket count times the bucket size never exceeds the
/// device size, at least the minimum number of buckets fit, and the bucket
/// size lies between the minimum and the cap.
pub fn plan_buckets(size: u64, native: u64, block: u64) -> (r: Result<(u64, u64), BchError>)
    requires
        512 <= block <= 32768,
    ensures
        r == plan_spec(size, native, block),
        r matches Ok(p) ==> {
            &&& p.1 >= 64
            &&& 512 <= p.0 <= 2048
            &&& (p.1 as nat) * (p.0 as nat) <= size as nat
        },
{
    let bucket0: u64 = if block >= native {
        block
    } else {
        native
    };
    proof {
        lemma_div64_cmp(size as nat, bucket0 as nat);
    }
    if size / 64 < bucket0 {
        return Err(BchError::Config(ConfigIssue::DeviceTooSmall { size, min: 32768 }));
    }
    // A defensive halving of the bucket would run here when the device is
    // smaller than the clamped minimum; the requested block size is at
    // least the minimum bucket size, so the clamp is a no-op and the size
    // check above already rules the halving out.
    let bucket1: u64 = if bucket0 >= MIN_BUCKET_SIZE {
        bucket0
    } else {
        MIN_BUCKET_SIZE
    };
    proof {
        assert(bucket1 == bucket0);
        assert(size / 64 >= bucket1);
    }
    let quot: u64 = size / (block * 64);
    let lg: u64 = log2_floor(quot);
    let scale0: u64 = lg / 4;
    let scale: u64 = if scale0 >= 1 {
        scale0
    } else {
        1
    };
    proof {
        lemma_div_le(size as nat, u64::MAX as nat, 64);
        assert(scale <= 15);
        lemma_mul_upper_bound(bucket1 as int, (u64::MAX / 64) as int, scale as int, 15);
    }
    let grown: u64 = bucket1 * scale;
    let bucket: u64 = if grown <= BUCKET_SIZE_CAP {
        grown
    } else {
        BUCKET_SIZE_CAP
    };
    proof {
        assert((bucket1 as nat) * (scale as nat) >= (bucket1 as nat) * 1) by (nonlinear_arith)
            requires
                scale >= 1,
        ;
        assert(bucket >= 512);
    }
    let nbuckets: u64 = size / bucket;
    if bucket * 512 < block {
        Err(
            BchError::Config(
                ConfigIssue::BlockSizeTooSmallForBucket {
                    bucket_size: bucket,
                    block_size: block,
                },
            ),
        )
    } else if nbuckets < MIN_BUCKET_COUNT {
        Err(BchError::Config(ConfigIssue::TooFewBuckets { nbuckets }))
    } else {
        proof {
            lemma_fundamental_div_mod(size as int, bucket as int);
            vstd::arithmetic::div_mod::lemma_remainder_lower(size as int, bucket as int);
        }
        Ok((bucket, nbuckets))
    }
}

} // verus!

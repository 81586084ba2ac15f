use libbcachefs::plan::{log2_floor, plan_buckets};
use libbcachefs::{BchError, ConfigIssue};

#[test]
fn log2_floor_values() {
    assert_eq!(log2_floor(1), 0);
    assert_eq!(log2_floor(2), 1);
    assert_eq!(log2_floor(3), 1);
    assert_eq!(log2_floor(2048), 11);
    assert_eq!(log2_floor(4095), 11);
    assert_eq!(log2_floor(u64::MAX), 63);
}

#[test]
fn planner_is_deterministic() {
    let a = plan_buckets(1 << 30, 4096, 4096);
    let b = plan_buckets(1 << 30, 4096, 4096);
    assert_eq!(a, b);
    let a = plan_buckets(32768, 512, 512);
    let b = plan_buckets(32768, 512, 512);
    assert_eq!(a, b);
}

#[test]
fn planner_bounds_hold() {
    for (size, native, block) in [
        (32768u64, 512u64, 512u64),
        (1 << 30, 512, 512),
        (1 << 40, 4096, 4096),
        (123456789, 512, 520),
    ] {
        let (bucket, nbuckets) = plan_buckets(size, native, block).unwrap();
        assert!(nbuckets >= 64);
        assert!((512..=2048).contains(&bucket));
        assert!(nbuckets.checked_mul(bucket).unwrap() <= size);
    }
}

#[test]
fn planner_boundary_exact_minimum() {
    // a device of exactly 64 minimum-size buckets passes
    assert_eq!(plan_buckets(64 * 512, 512, 512), Ok((512, 64)));
    // one sector short of that fails as too small
    assert_eq!(
        plan_buckets(64 * 512 - 1, 512, 512),
        Err(BchError::Config(ConfigIssue::DeviceTooSmall { size: 64 * 512 - 1, min: 32768 }))
    );
}

#[test]
fn planner_growth_formula() {
    // 2^30 sectors at the default block size: log2(2^30 / 32768) = 15,
    // scale 3, bucket 512 * 3 = 1536
    assert_eq!(plan_buckets(1 << 30, 512, 512), Ok((1536, (1 << 30) / 1536)));
    // 2^40 sectors: log2(2^40 / 32768) = 25, scale 6, capped at 2048
    assert_eq!(plan_buckets(1 << 40, 512, 512), Ok((2048, (1 << 40) / 2048)));
    // a large native block size raises the starting bucket
    assert_eq!(plan_buckets(1 << 20, 4096, 512), Ok((2048, (1 << 20) / 2048)));
}

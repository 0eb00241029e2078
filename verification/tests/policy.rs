use nginx_pool::policy::{compute, Allocation, PolicyError};

#[test]
fn capacity_above_baseline_gives_weight_and_limit() {
    assert_eq!(
        compute(4096, 2048, 512),
        Ok(Allocation { weight: 2048, max_connections: 4 })
    );
}

#[test]
fn capacity_at_baseline_is_insufficient() {
    assert_eq!(compute(2048, 2048, 512), Err(PolicyError::InsufficientCapacity));
}

#[test]
fn capacity_below_baseline_is_insufficient() {
    assert_eq!(compute(0, 2048, 512), Err(PolicyError::InsufficientCapacity));
    assert_eq!(compute(2047, 2048, 512), Err(PolicyError::InsufficientCapacity));
}

#[test]
fn limit_is_rounded_down() {
    assert_eq!(compute(2049, 2048, 512), Ok(Allocation { weight: 1, max_connections: 0 }));
    assert_eq!(compute(3071, 2048, 512), Ok(Allocation { weight: 1023, max_connections: 1 }));
    assert_eq!(compute(3072, 2048, 512), Ok(Allocation { weight: 1024, max_connections: 2 }));
}

#[test]
fn largest_capacity_does_not_overflow() {
    assert_eq!(
        compute(u64::MAX, 0, 1),
        Ok(Allocation { weight: u64::MAX, max_connections: u64::MAX })
    );
}

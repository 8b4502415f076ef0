use udss_proxy::buffer::{create_buffer_pool, BufferPool, PoolPolicy, Tier};
use udss_proxy::error::ProxyError;
use udss_proxy::{LARGE_BUFFER_SIZE, MEDIUM_BUFFER_SIZE, SMALL_BUFFER_SIZE};
use udss_proxy::{LARGE_POOL_SIZE, MEDIUM_POOL_SIZE, SMALL_POOL_SIZE};

#[test]
fn standard_pool_configuration() {
    let p = create_buffer_pool();
    assert_eq!(p.tier_size(Tier::Small), SMALL_BUFFER_SIZE);
    assert_eq!(p.tier_size(Tier::Medium), MEDIUM_BUFFER_SIZE);
    assert_eq!(p.tier_size(Tier::Large), LARGE_BUFFER_SIZE);
    assert_eq!(p.small.capacity, SMALL_POOL_SIZE);
    assert_eq!(p.medium.capacity, MEDIUM_POOL_SIZE);
    assert_eq!(p.large.capacity, LARGE_POOL_SIZE);
    assert_eq!(p.outstanding_count(Tier::Small), 0);
    assert_eq!(p.outstanding_count(Tier::Medium), 0);
    assert_eq!(p.outstanding_count(Tier::Large), 0);
}

#[test]
fn acquire_capacity_meets_hint() {
    let mut p = create_buffer_pool();
    for hint in [1usize, 1000, SMALL_BUFFER_SIZE, SMALL_BUFFER_SIZE + 1, MEDIUM_BUFFER_SIZE + 1] {
        let b = p.acquire(hint).unwrap();
        assert!(b.capacity() >= hint);
    }
}

#[test]
fn smallest_covering_tier_is_chosen() {
    let mut p = create_buffer_pool();
    let b = p.acquire(1).unwrap();
    assert_eq!(b.tier, Tier::Small);
    assert_eq!(b.capacity(), SMALL_BUFFER_SIZE);
    let b = p.acquire(SMALL_BUFFER_SIZE + 1).unwrap();
    assert_eq!(b.tier, Tier::Medium);
    assert_eq!(b.capacity(), MEDIUM_BUFFER_SIZE);
    let b = p.acquire(MEDIUM_BUFFER_SIZE + 1).unwrap();
    assert_eq!(b.tier, Tier::Large);
    assert_eq!(b.capacity(), LARGE_BUFFER_SIZE);
}

#[test]
fn oversize_hint_yields_overflow_buffer() {
    let mut p = create_buffer_pool();
    let before = p.outstanding_count(Tier::Large);
    let b = p.acquire(LARGE_BUFFER_SIZE + 1).unwrap();
    assert!(b.is_overflow());
    assert_eq!(b.capacity(), LARGE_BUFFER_SIZE + 1);
    assert_eq!(p.outstanding_count(Tier::Large), before);
}

#[test]
fn outstanding_never_exceeds_capacity() {
    let mut p = BufferPool::new(2, 1, 1);
    let mut held = Vec::new();
    for _ in 0..5 {
        held.push(p.acquire(1).unwrap());
    }
    // Two pooled buffers at most; everything beyond is tagged overflow.
    assert_eq!(p.outstanding_count(Tier::Small), 2);
    assert_eq!(held.iter().filter(|b| b.is_overflow()).count(), 3);
}

#[test]
fn overflow_buffer_is_never_pooled() {
    let mut p = BufferPool::new(1, 1, 1);
    let first = p.acquire(1).unwrap();
    let second = p.acquire(1).unwrap();
    assert!(!first.is_overflow());
    assert!(second.is_overflow());
    p.release(second);
    assert_eq!(p.free_count(Tier::Small), 0);
    assert_eq!(p.outstanding_count(Tier::Small), 1);
    p.release(first);
    assert_eq!(p.free_count(Tier::Small), 1);
    assert_eq!(p.outstanding_count(Tier::Small), 0);
}

#[test]
fn reject_policy_returns_pool_exhausted() {
    let mut p = BufferPool::new_with_policy(1, 1, 1, PoolPolicy::Reject);
    let first = p.acquire(1).unwrap();
    let second = p.acquire(1);
    assert_eq!(second.unwrap_err(), ProxyError::PoolExhausted);
    p.release(first);
    // A slot is free again, so the next acquire succeeds.
    assert!(p.acquire(1).is_ok());
}

#[test]
fn free_buffer_is_reused_not_reallocated() {
    let mut p = create_buffer_pool();
    let mut b = p.acquire(100).unwrap();
    b.data[0] = 77;
    p.release(b);
    let b = p.acquire(100).unwrap();
    // The buffer came back off the free list, not from a fresh allocation.
    assert_eq!(b.data[0], 77);
    assert_eq!(p.free_count(Tier::Small), 0);
    assert_eq!(p.outstanding_count(Tier::Small), 1);
}

#[test]
fn released_buffer_is_reused() {
    let mut p = create_buffer_pool();
    let b = p.acquire(100).unwrap();
    p.release(b);
    assert_eq!(p.free_count(Tier::Small), 1);
    let b = p.acquire(100).unwrap();
    assert!(!b.is_overflow());
    assert_eq!(p.free_count(Tier::Small), 0);
    assert_eq!(p.outstanding_count(Tier::Small), 1);
}

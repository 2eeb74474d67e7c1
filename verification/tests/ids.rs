use silkroad_core::ids::{EntityIdPool, PoolExhausted};

#[test]
fn pool_hands_out_distinct_ids() {
    let mut pool = EntityIdPool::new();
    let mut seen = Vec::new();
    for _ in 0..100 {
        let id = pool.request_id().unwrap();
        assert!(!seen.contains(&id));
        assert!(pool.is_live(id));
        seen.push(id);
    }
    assert_eq!(seen[0], 1);
    assert_eq!(seen[99], 100);
}

#[test]
fn pool_never_hands_out_zero() {
    let mut pool = EntityIdPool::new();
    assert!(!pool.is_live(0));
    assert_eq!(pool.request_id(), Ok(1));
    assert!(!pool.release_id(0));
}

#[test]
fn pool_reports_exhaustion_and_recovers_after_release() {
    let mut pool = EntityIdPool::with_range(10, 12);
    assert_eq!(pool.available(), 3);
    assert_eq!(pool.request_id(), Ok(10));
    assert_eq!(pool.request_id(), Ok(11));
    assert_eq!(pool.request_id(), Ok(12));
    assert_eq!(pool.available(), 0);
    assert_eq!(pool.request_id(), Err(PoolExhausted));
    assert_eq!(pool.request_id(), Err(PoolExhausted));
    assert!(pool.release_id(11));
    assert_eq!(pool.available(), 1);
    assert_eq!(pool.request_id(), Ok(11));
    assert_eq!(pool.request_id(), Err(PoolExhausted));
}

#[test]
fn pool_reuses_an_id_only_after_release() {
    let mut pool = EntityIdPool::with_range(1, 1000);
    let a = pool.request_id().unwrap();
    let b = pool.request_id().unwrap();
    assert!(pool.release_id(a));
    assert!(!pool.is_live(a));
    assert!(pool.is_live(b));
    let c = pool.request_id().unwrap();
    assert_eq!(c, a);
    let d = pool.request_id().unwrap();
    assert_ne!(d, b);
    assert_ne!(d, c);
}

#[test]
fn pool_ignores_release_of_ids_not_in_use() {
    let mut pool = EntityIdPool::with_range(5, 9);
    assert!(!pool.release_id(5));
    assert!(!pool.release_id(4));
    assert_eq!(pool.request_id(), Ok(5));
    assert!(pool.release_id(5));
    assert!(!pool.release_id(5));
    assert_eq!(pool.available(), 5);
}

#[test]
fn pool_of_an_empty_range_is_exhausted() {
    let mut pool = EntityIdPool::with_range(9, 3);
    assert_eq!(pool.available(), 0);
    assert_eq!(pool.request_id(), Err(PoolExhausted));
    assert_eq!(pool.request_ids(0), Ok(vec![]));
}

#[test]
fn pool_reaches_the_largest_id() {
    let mut pool = EntityIdPool::with_range(u32::MAX - 1, u32::MAX);
    assert_eq!(pool.request_id(), Ok(u32::MAX - 1));
    assert_eq!(pool.request_id(), Ok(u32::MAX));
    assert_eq!(pool.request_id(), Err(PoolExhausted));
    assert!(pool.is_live(u32::MAX));
}

#[test]
fn pool_grants_a_batch_or_nothing() {
    let mut pool = EntityIdPool::with_range(1, 5);
    assert_eq!(pool.request_id(), Ok(1));
    assert_eq!(pool.request_id(), Ok(2));
    assert!(pool.release_id(1));
    assert_eq!(pool.request_ids(5), Err(PoolExhausted));
    assert_eq!(pool.available(), 4);
    assert_eq!(pool.request_ids(4), Ok(vec![1, 3, 4, 5]));
    assert_eq!(pool.available(), 0);
}

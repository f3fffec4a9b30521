use pgwire::error::Error;
use pgwire::pool::{Acquire, Decision, Pool, PoolConfig, PooledConnection};

fn config(max_open: usize) -> PoolConfig {
    PoolConfig {
        min_idle: 0,
        max_open,
        acquire_timeout: 1_000,
        idle_lifetime: 60_000,
        max_lifetime: 600_000,
    }
}

fn open(pool: &mut Pool, now: u64) -> PooledConnection {
    assert_eq!(pool.acquire(now), Acquire { decision: Decision::Open, discard: vec![] });
    pool.opened(now)
}

#[test]
fn two_callers_are_served_and_the_third_waits() {
    let mut pool = Pool::new(config(2));
    let first = open(&mut pool, 0);
    let second = open(&mut pool, 0);
    assert_ne!(first.id, second.id);
    assert_eq!(pool.open_count(), 2);

    assert_eq!(pool.acquire(10).decision, Decision::Wait);
    assert_eq!(pool.acquire(20).decision, Decision::Wait);

    assert!(pool.release(first, true, 30));
    let lease = pool.acquire(30);
    assert_eq!(lease.decision, Decision::Reuse(PooledConnection { last_used: 30, ..first }));
    assert!(lease.discard.is_empty());
    assert_eq!(pool.open_count(), 2);
    assert_eq!(pool.idle_count(), 0);
}

#[test]
fn a_wait_that_runs_out_is_a_pool_timeout() {
    let mut pool = Pool::new(config(2));
    open(&mut pool, 0);
    open(&mut pool, 0);
    assert_eq!(pool.acquire(10).decision, Decision::Wait);
    assert!(!pool.wait_is_over(10, 10));
    assert!(!pool.wait_is_over(10, 1_009));
    assert!(pool.wait_is_over(10, 1_010));
    assert!(pool.wait_is_over(10, 5_000));
    assert_eq!(pool.timed_out(), Error::PoolTimeout { exhausted: true });
    assert!(!pool.timed_out().is_fatal());
}

#[test]
fn a_timeout_below_the_limit_is_not_exhaustion() {
    let mut pool = Pool::new(config(2));
    assert_eq!(pool.acquire(0).decision, Decision::Open);
    assert_eq!(pool.timed_out(), Error::PoolTimeout { exhausted: false });
    assert!(pool.abandon());
    assert_eq!(pool.open_count(), 0);
    assert!(!pool.abandon());
}

#[test]
fn an_idle_connection_is_preferred_to_a_new_one() {
    let mut pool = Pool::new(config(5));
    let conn = open(&mut pool, 0);
    assert!(pool.release(conn, true, 5));
    assert_eq!(pool.idle_count(), 1);
    assert_eq!(pool.acquire(6).decision, Decision::Reuse(PooledConnection { last_used: 6, ..conn }));
    assert_eq!(pool.open_count(), 1);
}

#[test]
fn the_connection_that_was_released_first_is_reused_first() {
    let mut pool = Pool::new(config(3));
    let a = open(&mut pool, 0);
    let b = open(&mut pool, 0);
    assert!(pool.release(b, true, 1));
    assert!(pool.release(a, true, 2));
    assert_eq!(pool.acquire(3).decision, Decision::Reuse(PooledConnection { last_used: 3, ..b }));
    assert_eq!(pool.acquire(3).decision, Decision::Reuse(PooledConnection { last_used: 3, ..a }));
}

#[test]
fn a_connection_that_idled_too_long_is_closed_not_reused() {
    let mut pool = Pool::new(config(2));
    let conn = open(&mut pool, 0);
    assert!(pool.release(conn, true, 100));
    let idle = PooledConnection { last_used: 100, ..conn };
    let lease = pool.acquire(100 + 60_001);
    assert_eq!(lease, Acquire { decision: Decision::Open, discard: vec![idle] });
    assert_eq!(pool.open_count(), 1);
    assert_eq!(pool.idle_count(), 0);
}

#[test]
fn a_connection_at_its_idle_limit_is_still_reused() {
    let mut pool = Pool::new(config(2));
    let conn = open(&mut pool, 0);
    assert!(pool.release(conn, true, 100));
    assert_eq!(
        pool.acquire(100 + 60_000).decision,
        Decision::Reuse(PooledConnection { last_used: 60_100, ..conn })
    );
}

#[test]
fn a_connection_that_lived_too_long_is_closed() {
    let mut pool = Pool::new(config(2));
    let conn = open(&mut pool, 0);
    assert!(pool.release(conn, true, 599_999));
    assert_eq!(pool.acquire(600_001).decision, Decision::Open);

    let old = pool.opened(600_001);
    assert!(!pool.release(old, true, 600_001 + 600_001));
    assert_eq!(pool.open_count(), 0);
}

#[test]
fn stale_connections_are_skipped_until_a_usable_one_is_found() {
    let mut pool = Pool::new(config(3));
    let a = open(&mut pool, 0);
    let b = open(&mut pool, 0);
    let c = open(&mut pool, 50_000);
    assert!(pool.release(a, true, 1));
    assert!(pool.release(b, true, 2));
    assert!(pool.release(c, true, 50_000));
    let lease = pool.acquire(70_000);
    assert_eq!(lease.decision, Decision::Reuse(PooledConnection { last_used: 70_000, ..c }));
    assert_eq!(
        lease.discard,
        vec![PooledConnection { last_used: 1, ..a }, PooledConnection { last_used: 2, ..b }]
    );
    assert_eq!(pool.open_count(), 1);
}

#[test]
fn a_connection_that_is_not_ready_is_not_taken_back() {
    let mut pool = Pool::new(config(1));
    let conn = open(&mut pool, 0);
    assert_eq!(pool.acquire(1).decision, Decision::Wait);
    assert!(!pool.release(conn, false, 2));
    assert_eq!(pool.open_count(), 0);
    assert_eq!(pool.idle_count(), 0);
    assert_eq!(pool.acquire(3).decision, Decision::Open);
}

#[test]
fn a_dead_connection_is_replaced() {
    let mut pool = Pool::new(config(1));
    let conn = open(&mut pool, 0);
    assert!(pool.release(conn, true, 1));
    assert!(matches!(pool.acquire(2).decision, Decision::Reuse(_)));
    assert!(pool.abandon());
    assert_eq!(pool.acquire(2).decision, Decision::Open);
    assert_eq!(pool.opened(2).id, conn.id + 1);
}

#[test]
fn a_new_generation_makes_every_connection_stale() {
    let mut pool = Pool::new(config(2));
    let a = open(&mut pool, 0);
    let b = open(&mut pool, 0);
    assert!(pool.release(a, true, 1));
    pool.invalidate();
    assert!(!pool.release(b, true, 2));
    let lease = pool.acquire(3);
    assert_eq!(lease.decision, Decision::Open);
    assert_eq!(lease.discard, vec![PooledConnection { last_used: 1, ..a }]);
    assert_eq!(pool.opened(3).generation, 1);
}

#[test]
fn a_pool_without_room_only_waits() {
    let mut pool = Pool::new(config(0));
    assert_eq!(pool.acquire(0).decision, Decision::Wait);
    assert_eq!(pool.timed_out(), Error::PoolTimeout { exhausted: true });
}

#[test]
fn a_clock_that_goes_back_ages_nothing() {
    let mut pool = Pool::new(config(1));
    let conn = open(&mut pool, 1_000_000);
    assert!(pool.release(conn, true, 1_000_000));
    assert!(matches!(pool.acquire(5).decision, Decision::Reuse(_)));
    assert!(!pool.wait_is_over(10, 5));
}

#[test]
fn the_pool_asks_for_the_idle_connections_it_misses() {
    let mut pool = Pool::new(PoolConfig { min_idle: 2, ..config(3) });
    assert_eq!(pool.wanted(), 2);
    let a = open(&mut pool, 0);
    assert_eq!(pool.wanted(), 2);
    let _b = open(&mut pool, 0);
    assert_eq!(pool.wanted(), 1);
    assert!(pool.release(a, true, 1));
    assert_eq!(pool.wanted(), 1);
    assert!(matches!(pool.acquire(1).decision, Decision::Reuse(_)));
    assert_eq!(pool.wanted(), 1);
    let _c = open(&mut pool, 1);
    assert_eq!(pool.wanted(), 0);
}

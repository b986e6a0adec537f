use std::sync::Arc;
use std::time::{Duration, Instant};

use gsheet::error::GoogleError;
use gsheet::throttle::{
    Acquire, GoogleThrottle, GOOGLE_CACHE_TTL_MAX_SECS, GOOGLE_CACHE_TTL_SECS,
    GOOGLE_MAX_QUEUED_REQUESTS, GOOGLE_RATE_LIMIT, GOOGLE_RATE_WINDOW_SECS,
};
use tokio::runtime::Builder;
use tokio::sync::Mutex;
use tokio::time::sleep;

async fn acquire(throttle: &Mutex<GoogleThrottle>, started: Instant) -> Result<(), GoogleError> {
    let mut step = throttle.lock().await.acquire(started.elapsed().as_nanos());
    loop {
        match step {
            Acquire::Granted => return Ok(()),
            Acquire::Refused { error } => return Err(error),
            Acquire::Wait { nanos } => sleep(Duration::from_nanos(nanos as u64)).await,
        }
        step = throttle.lock().await.acquire_again(started.elapsed().as_nanos());
    }
}

#[test]
fn rejects_google_requests_when_throttle_queue_is_full() {
    let runtime = Builder::new_multi_thread().worker_threads(2).enable_time().build().unwrap();
    runtime.block_on(async {
        let started = Instant::now();
        let window = Duration::from_millis(200).as_nanos();
        let throttle = Arc::new(Mutex::new(GoogleThrottle::new(1, window, 1)));

        acquire(&throttle, started).await.expect("first slot");

        let waiting = {
            let throttle = throttle.clone();
            tokio::spawn(async move { acquire(&throttle, started).await })
        };

        sleep(Duration::from_millis(10)).await;

        let error = acquire(&throttle, started).await.expect_err("queue should be full");
        assert_eq!(error.status, 429);
        assert_eq!(error.message, "Too many Google requests queued");

        waiting
            .await
            .expect("waiting task panicked")
            .expect("waiting slot");
    });
}

#[test]
fn extends_cache_ttl_under_queue_pressure() {
    let window = Duration::from_secs(60).as_nanos();
    let mut throttle = GoogleThrottle::new(1, window, GOOGLE_MAX_QUEUED_REQUESTS);

    assert_eq!(throttle.cache_ttl_secs(), GOOGLE_CACHE_TTL_SECS);

    for _ in 0..8 {
        throttle.enqueue().expect("queue permit");
    }
    assert_eq!(throttle.cache_ttl_secs(), GOOGLE_CACHE_TTL_SECS * 2);
    for _ in 0..8 {
        throttle.leave();
    }
    assert_eq!(throttle.cache_ttl_secs(), GOOGLE_CACHE_TTL_SECS);
}

#[test]
fn the_ttl_has_four_steps_and_a_maximum() {
    let mut throttle = GoogleThrottle::new(1, 1, 64);
    let mut ttls = Vec::new();
    for queued in 1..=64 {
        throttle.enqueue().expect("room");
        if [7, 8, 23, 24, 47, 48, 64].contains(&queued) {
            ttls.push(throttle.cache_ttl_secs());
        }
    }
    assert_eq!(ttls, vec![300, 600, 600, 900, 900, 1200, 1200]);
    let tighter = throttle.with_cache_ttl(500, 1000);
    assert_eq!(tighter.cache_ttl_secs(), 1000);
    let huge = tighter.with_cache_ttl(u64::MAX, u64::MAX);
    assert_eq!(huge.cache_ttl_secs(), u64::MAX);
}

#[test]
fn a_window_holds_no_more_than_the_limit() {
    let mut throttle = GoogleThrottle::new(3, 100, 10);
    assert_eq!(throttle.take_slot(0), None);
    assert_eq!(throttle.take_slot(10), None);
    assert_eq!(throttle.take_slot(20), None);
    assert_eq!(throttle.take_slot(20), Some(80));
    assert_eq!(throttle.take_slot(99), Some(1));
    assert_eq!(throttle.take_slot(100), None);
    assert_eq!(throttle.take_slot(100), Some(10));
    assert_eq!(throttle.take_slot(120), None);
    assert_eq!(throttle.take_slot(120), None);
    assert_eq!(throttle.take_slot(121), Some(79));
}

#[test]
fn a_queue_without_places_refuses() {
    let mut throttle = GoogleThrottle::new(1, 1, 0);
    assert!(throttle.has_room());
    assert_eq!(throttle.enqueue().unwrap_err().status, 429);
    assert!(!GoogleThrottle::new(0, 1, 1).has_room());
}

#[test]
fn the_defaults_are_the_documented_ones() {
    assert_eq!(GOOGLE_RATE_LIMIT, 300);
    assert_eq!(GOOGLE_RATE_WINDOW_SECS, 60);
    assert_eq!(GOOGLE_MAX_QUEUED_REQUESTS, 64);
    assert_eq!(GOOGLE_CACHE_TTL_SECS, 300);
    assert_eq!(GOOGLE_CACHE_TTL_MAX_SECS, 1200);
}

#[test]
fn a_request_leaves_the_queue_with_its_slot() {
    let mut throttle = GoogleThrottle::new(1, 100, 8).with_cache_ttl(1, 10);
    assert!(matches!(throttle.acquire(0), Acquire::Granted));
    for _ in 0..8 {
        assert!(matches!(throttle.acquire(30), Acquire::Wait { nanos: 70 }));
    }
    assert_eq!(throttle.cache_ttl_secs(), 2);
    assert!(matches!(throttle.acquire(30), Acquire::Refused { .. }));
    assert!(matches!(throttle.acquire_again(100), Acquire::Granted));
    assert_eq!(throttle.cache_ttl_secs(), 1);
    assert!(matches!(throttle.acquire(101), Acquire::Wait { nanos: 99 }));
}

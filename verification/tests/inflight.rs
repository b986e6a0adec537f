use std::future::Future;
use std::sync::Arc;
use std::time::Duration;

use gsheet::error::GoogleError;
use gsheet::inflight::{InflightEntry, InflightRequests, RunState};
use tokio::runtime::{Builder, Runtime};
use tokio::sync::{Mutex, Notify};
use tokio::time::sleep;

struct Slot {
    notify: Notify,
    entry: Mutex<InflightEntry>,
}

#[derive(Clone)]
struct Requests {
    table: Arc<Mutex<InflightRequests<Arc<Slot>>>>,
}

impl Requests {
    fn new() -> Self {
        Requests { table: Arc::new(Mutex::new(InflightRequests::new())) }
    }

    async fn run<F, Fut>(&self, key: String, operation: F) -> Result<Vec<u8>, GoogleError>
    where
        F: FnOnce() -> Fut,
        Fut: Future<Output = Result<Vec<u8>, GoogleError>>,
    {
        let fresh = Arc::new(Slot { notify: Notify::new(), entry: Mutex::new(InflightEntry::new()) });
        let (state, slot) = {
            let mut table = self.table.lock().await;
            let state = table.run(key.clone(), fresh);
            let slot = table.get(&key).expect("the key is in the table").clone();
            (state, slot)
        };
        let state = match state {
            RunState::Operating => {
                let outcome = operation().await;
                RunState::Operating.on_resolved(outcome)
            }
            waiting => loop {
                let published = slot.notify.notified();
                if let Some(outcome) = slot.entry.lock().await.wait() {
                    break waiting.on_resolved(outcome);
                }
                published.await;
            },
        };
        match state {
            RunState::Publishing { outcome } => {
                slot.entry.lock().await.finish(outcome.clone());
                slot.notify.notify_waiters();
                self.table.lock().await.remove(&key);
                match (RunState::Publishing { outcome }).on_published() {
                    RunState::Done { outcome } => outcome,
                    _ => panic!("a published run is done"),
                }
            }
            RunState::Done { outcome } => outcome,
            _ => panic!("a resolved run is published or done"),
        }
    }
}

fn runtime() -> Runtime {
    Builder::new_multi_thread().worker_threads(2).enable_time().build().expect("runtime")
}

async fn coalesced(body: Vec<u8>) {
    let inflight = Requests::new();
    let calls = Arc::new(Mutex::new(0u32));

    let first_calls = calls.clone();
    let first_body = body.clone();
    let first = {
        let inflight = inflight.clone();
        tokio::spawn(async move {
            inflight
                .run("sheet-key".to_string(), move || async move {
                    *first_calls.lock().await += 1;
                    sleep(Duration::from_millis(50)).await;
                    Ok(first_body)
                })
                .await
        })
    };
    while *calls.lock().await == 0 {
        sleep(Duration::from_millis(1)).await;
    }

    let second = {
        let inflight = inflight.clone();
        tokio::spawn(async move {
            inflight
                .run("sheet-key".to_string(), move || async move {
                    Err(GoogleError { message: "should not execute".to_string(), status: 500 })
                })
                .await
        })
    };

    let first_result = first.await.expect("first task panicked");
    let second_result = second.await.expect("second task panicked");

    assert_eq!(*calls.lock().await, 1);
    assert_eq!(first_result.unwrap(), body);
    assert_eq!(second_result.unwrap(), body);
    assert!(inflight.table.lock().await.get("sheet-key").is_none());
}

async fn propagated() {
    let inflight = Requests::new();
    let started = Arc::new(Notify::new());

    let first = {
        let inflight = inflight.clone();
        let started = started.clone();
        tokio::spawn(async move {
            inflight
                .run("sheet-key".to_string(), move || async move {
                    started.notify_one();
                    sleep(Duration::from_millis(25)).await;
                    Err(GoogleError { message: "upstream failed".to_string(), status: 502 })
                })
                .await
        })
    };
    started.notified().await;

    let second = {
        let inflight = inflight.clone();
        tokio::spawn(async move {
            inflight
                .run("sheet-key".to_string(), move || async move {
                    Ok(b"should not execute".to_vec())
                })
                .await
        })
    };

    let first_result = first.await.expect("first task panicked");
    let second_result = second.await.expect("second task panicked");

    assert_eq!(first_result.unwrap_err().message, "upstream failed");
    assert_eq!(second_result.unwrap_err().message, "upstream failed");
}

#[test]
fn main_coalesces_duplicate_inflight_requests() {
    runtime().block_on(coalesced(br#"[{"name":"alice"}]"#.to_vec()));
}

#[test]
fn main_propagates_errors_to_duplicate_waiters() {
    runtime().block_on(propagated());
}

#[test]
fn inflight_coalesces_duplicate_inflight_requests() {
    runtime().block_on(coalesced("[{\"name\":\"alice\"}]".to_string().into_bytes()));
}

#[test]
fn inflight_propagates_errors_to_duplicate_waiters() {
    runtime().block_on(propagated());
}

#[test]
fn keys_do_not_disturb_each_other() {
    let mut table: InflightRequests<u8> = InflightRequests::new();
    assert!(matches!(table.run("a".to_string(), 1), RunState::Operating));
    assert!(matches!(table.run("b".to_string(), 2), RunState::Operating));
    assert!(matches!(table.run("a".to_string(), 3), RunState::Waiting));
    assert_eq!(table.get("a"), Some(&1));
    assert_eq!(table.get("b"), Some(&2));
    table.remove("c");
    table.remove("a");
    assert_eq!(table.get("a"), None);
    assert_eq!(table.get("b"), Some(&2));
    assert!(matches!(table.run("a".to_string(), 4), RunState::Operating));
    assert_eq!(table.get("a"), Some(&4));
}

#[test]
fn an_entry_gives_what_was_published_last() {
    let mut entry = InflightEntry::new();
    assert!(entry.wait().is_none());
    entry.finish(Ok(vec![1]));
    assert_eq!(entry.wait().unwrap().unwrap(), vec![1]);
    entry.finish(Err(GoogleError::too_many_requests("full".to_string())));
    let error = entry.wait().unwrap().unwrap_err();
    assert_eq!((error.message.as_str(), error.status), ("full", 429));
}

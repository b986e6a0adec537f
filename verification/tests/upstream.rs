use gsheet::error::GoogleError;
use gsheet::inflight::RunState;
use gsheet::rows::GoogleApiError;
use gsheet::upstream::{judge, FetchState, FetchTarget, Resource, SendFailure, WorkState};

fn api_error(message: &str) -> Option<GoogleApiError> {
    Some(GoogleApiError { message: message.to_string() })
}

fn parts(error: &GoogleError) -> (&str, u16) {
    (error.message.as_str(), error.status)
}

fn finished(state: WorkState) -> Result<Vec<u8>, GoogleError> {
    match state {
        WorkState::Finished { outcome } => outcome,
        _ => panic!("the work goes on"),
    }
}

#[test]
fn targets_name_their_payloads() {
    let metadata = FetchTarget::metadata("sheet-id", "key");
    assert_eq!(metadata.cache_key, "metadata:sheet-id");
    assert_eq!(metadata.store_key(), "m:metadata:sheet-id");
    assert_eq!(
        metadata.url,
        "https://sheets.googleapis.com/v4/spreadsheets/sheet-id?key=key"
    );
    let values = FetchTarget::values("sheet-id", "Été 1/2", "key");
    assert_eq!(values.cache_key, "values:sheet-id:Été 1/2");
    assert_eq!(values.store_key(), "v:values:sheet-id:Été 1/2");
    assert_eq!(
        values.url,
        "https://sheets.googleapis.com/v4/spreadsheets/sheet-id/values/%C3%89t%C3%A9%201%2F2?key=key"
    );
}

#[test]
fn a_hit_ends_the_fetch() {
    match FetchState::Lookup.on_looked_up(Ok(Some(b"cached".to_vec()))) {
        FetchState::Running { run: RunState::Done { outcome } } => {
            assert_eq!(outcome.unwrap(), b"cached".to_vec());
        }
        _ => panic!("the fetch goes on"),
    }
    match FetchState::Lookup.on_looked_up(Err("broken".to_string())) {
        FetchState::Running { run: RunState::Done { outcome } } => {
            assert_eq!(parts(&outcome.unwrap_err()), ("Cache error: broken", 500));
        }
        _ => panic!("the fetch goes on"),
    }
}

#[test]
fn a_leader_publishes_and_a_follower_takes() {
    let joining = FetchState::Lookup.on_looked_up(Ok(None));
    assert!(matches!(joining, FetchState::Joining));
    let published = joining.on_joined(RunState::Operating).on_resolved(Ok(vec![7]));
    match &published {
        FetchState::Running { run: RunState::Publishing { outcome } } => {
            assert_eq!(outcome.clone().unwrap(), vec![7]);
        }
        _ => panic!("the leader does not publish"),
    }
    match published.on_published() {
        FetchState::Running { run: RunState::Done { outcome } } => {
            assert_eq!(outcome.unwrap(), vec![7]);
        }
        _ => panic!("the leader is not done"),
    }
    match FetchState::Joining.on_joined(RunState::Waiting).on_resolved(Ok(vec![8])) {
        FetchState::Running { run: RunState::Done { outcome } } => {
            assert_eq!(outcome.unwrap(), vec![8]);
        }
        _ => panic!("the follower is not done"),
    }
}

#[test]
fn the_work_caches_what_it_fetched() {
    let state = WorkState::Recheck.on_rechecked(Ok(None));
    let state = state.on_admitted(Ok(()));
    let state = state.on_sent(Ok((200, b"body".to_vec())));
    let state = state.on_decoded(Resource::Values, Ok(None), 600);
    match &state {
        WorkState::Storing { body, ttl_seconds } => {
            assert_eq!((body.as_slice(), *ttl_seconds), (b"body".as_slice(), 600));
        }
        _ => panic!("nothing is stored"),
    }
    assert_eq!(finished(state.on_stored(Ok(()))).unwrap(), b"body".to_vec());
}

#[test]
fn the_work_stops_at_a_second_hit() {
    let hit = WorkState::Recheck.on_rechecked(Ok(Some(b"there".to_vec())));
    assert_eq!(finished(hit).unwrap(), b"there".to_vec());
    let broken = WorkState::Recheck.on_rechecked(Err("read".to_string()));
    assert_eq!(parts(&finished(broken).unwrap_err()), ("Cache error: read", 500));
}

#[test]
fn the_work_fails_with_the_throttle() {
    let full = GoogleError::too_many_requests("Too many Google requests queued".to_string());
    let refused = WorkState::Queueing.on_admitted(Err(full));
    assert_eq!(
        parts(&finished(refused).unwrap_err()),
        ("Too many Google requests queued", 429)
    );
}

#[test]
fn the_work_fails_with_the_request() {
    let cases = [
        (SendFailure::Build("build".to_string()), ("build", 500)),
        (SendFailure::Upstream("reach".to_string()), ("reach", 502)),
        (SendFailure::Body("broke off".to_string()), ("broke off", 502)),
    ];
    for (failure, expected) in cases {
        let failed = WorkState::Sending.on_sent(Err(failure));
        assert_eq!(parts(&finished(failed).unwrap_err()), expected);
    }
}

#[test]
fn the_work_fails_with_the_response() {
    let decoding = || WorkState::Decoding { status: 200, body: b"body".to_vec() };
    let broken = decoding().on_decoded(Resource::Values, Err("no json".to_string()), 300);
    assert_eq!(parts(&finished(broken).unwrap_err()), ("no json", 502));
    let reported = decoding().on_decoded(Resource::Values, Ok(api_error("denied")), 300);
    assert_eq!(parts(&finished(reported).unwrap_err()), ("denied", 400));
}

#[test]
fn the_work_fails_with_the_write() {
    let storing = WorkState::Storing { body: b"body".to_vec(), ttl_seconds: 300 };
    let failed = storing.on_stored(Err("disk full".to_string()));
    assert_eq!(parts(&finished(failed).unwrap_err()), ("Cache error: disk full", 500));
}

#[test]
fn responses_are_judged_in_order() {
    assert!(judge(Resource::Values, 200, Ok(None)).is_ok());
    let values = judge(Resource::Values, 404, Ok(None)).unwrap_err();
    assert_eq!(parts(&values), ("Google Sheets request failed", 400));
    let metadata = judge(Resource::Metadata, 500, Ok(None)).unwrap_err();
    assert_eq!(parts(&metadata), ("Google Sheets metadata request failed", 400));
    let reported = judge(Resource::Metadata, 500, Ok(api_error("denied"))).unwrap_err();
    assert_eq!(parts(&reported), ("denied", 400));
    let broken = judge(Resource::Metadata, 500, Err("no json".to_string())).unwrap_err();
    assert_eq!(parts(&broken), ("no json", 502));
}

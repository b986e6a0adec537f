//! One upstream fetch: where its payload is cached, and what happens until its body is there.
//!
//! A fetch is driven from outside. It says which action comes next, and takes the answer.
use vstd::prelude::*;
use vstd::utf8::encode_utf8;

use crate::error::{
    bad_gateway_view, bad_request_view, cache_view, internal_view, outcome_view, ErrorView,
    GoogleError,
};
use crate::inflight::{run_resolved, run_started, RunState, RunView};
use crate::percent::{encode_title, encoding_is_undone, percent_encoded, percent_encoded_byte};
use crate::retention::{
    consistent, entry_at, kinds_do_not_meet, read_body, read_gives_back_what_was_written,
    remove_drops_one_entry, written,
};
use crate::rows::{api_error_text, GoogleApiError};
use crate::store::{applied_all, cache_key_prefix, prefixed_key, remove_ops, StoreView};

verus! {

/// The two kinds of upstream payload.
#[derive(Clone, Copy, PartialEq, Eq, Structural)]
pub enum Resource {
    /// The list of the sheets of a spreadsheet.
    Metadata,
    /// The cells of one sheet.
    Values,
}

/// What is fetched: the key under which concurrent fetches are coalesced, and the URL.
pub struct FetchTarget {
    pub resource: Resource,
    pub cache_key: String,
    pub url: String,
}

/// What is fetched, by its texts.
pub struct TargetView {
    pub resource: Resource,
    pub cache_key: Seq<char>,
    pub url: Seq<char>,
}

impl View for FetchTarget {
    type V = TargetView;

    open spec fn view(&self) -> TargetView {
        TargetView { resource: self.resource, cache_key: self.cache_key@, url: self.url@ }
    }
}

/// The URL of a spreadsheet.
pub open spec fn spreadsheet_url(spreadsheet_id: Seq<char>) -> Seq<char> {
    "https://sheets.googleapis.com/v4/spreadsheets/"@ + spreadsheet_id
}

/// The metadata of a spreadsheet.
pub open spec fn metadata_target(spreadsheet_id: Seq<char>, api_key: Seq<char>) -> TargetView {
    TargetView {
        resource: Resource::Metadata,
        cache_key: "metadata:"@ + spreadsheet_id,
        url: spreadsheet_url(spreadsheet_id) + "?key="@ + api_key,
    }
}

/// The values of one sheet of a spreadsheet, named by its title.
pub open spec fn values_target(
    spreadsheet_id: Seq<char>,
    title: Seq<char>,
    api_key: Seq<char>,
) -> TargetView {
    TargetView {
        resource: Resource::Values,
        cache_key: "values:"@ + prefixed_key(spreadsheet_id, title),
        url: spreadsheet_url(spreadsheet_id) + "/values/"@ + percent_encoded(encode_utf8(title))
            + "?key="@ + api_key,
    }
}

/// The key under which a payload is cached: the kind of the payload before the key of the fetch.
pub open spec fn store_key_view(target: TargetView) -> Seq<char> {
    match target.resource {
        Resource::Metadata => prefixed_key("m"@, target.cache_key),
        Resource::Values => prefixed_key("v"@, target.cache_key),
    }
}

impl FetchTarget {
    /// The metadata of a spreadsheet.
    pub fn metadata(spreadsheet_id: &str, api_key: &str) -> (target: Self)
        ensures
            target@ == metadata_target(spreadsheet_id@, api_key@),
    {
        let mut cache_key = "metadata:".to_owned();
        cache_key.append(spreadsheet_id);
        let mut url = "https://sheets.googleapis.com/v4/spreadsheets/".to_owned();
        url.append(spreadsheet_id);
        url.append("?key=");
        url.append(api_key);
        FetchTarget { resource: Resource::Metadata, cache_key, url }
    }

    /// The values of one sheet of a spreadsheet.
    pub fn values(spreadsheet_id: &str, title: &str, api_key: &str) -> (target: Self)
        ensures
            target@ == values_target(spreadsheet_id@, title@, api_key@),
    {
        let mut cache_key = "values:".to_owned();
        cache_key.append(cache_key_prefix(spreadsheet_id, title).as_str());
        let mut url = "https://sheets.googleapis.com/v4/spreadsheets/".to_owned();
        url.append(spreadsheet_id);
        url.append("/values/");
        url.append(encode_title(title).as_str());
        url.append("?key=");
        url.append(api_key);
        FetchTarget { resource: Resource::Values, cache_key, url }
    }

    /// The key under which the payload is cached.
    pub fn store_key(&self) -> (key: String)
        ensures
            key@ == store_key_view(self@),
    {
        match self.resource {
            Resource::Metadata => cache_key_prefix("m", self.cache_key.as_str()),
            Resource::Values => cache_key_prefix("v", self.cache_key.as_str()),
        }
    }
}

/// Why no upstream response is there.
pub enum SendFailure {
    /// The request could not be built.
    Build(String),
    /// The service could not be reached.
    Upstream(String),
    /// The response broke off.
    Body(String),
}

/// The error that answers for a missing upstream response.
pub open spec fn failure_view(failure: SendFailure) -> ErrorView {
    match failure {
        SendFailure::Build(message) => internal_view(message@),
        SendFailure::Upstream(message) => bad_gateway_view(message@),
        SendFailure::Body(message) => bad_gateway_view(message@),
    }
}

impl SendFailure {
    /// The error that answers for the failure.
    pub fn into_error(self) -> (error: GoogleError)
        ensures
            error@ == failure_view(self),
    {
        match self {
            SendFailure::Build(message) => GoogleError::request_build(message),
            SendFailure::Upstream(message) => GoogleError::upstream(message),
            SendFailure::Body(message) => GoogleError::body_read(message),
        }
    }
}

/// What is said of an upstream response that reports no error but whose status is not 200.
pub open spec fn status_message(resource: Resource) -> Seq<char> {
    match resource {
        Resource::Metadata => "Google Sheets metadata request failed"@,
        Resource::Values => "Google Sheets request failed"@,
    }
}

/// The judgement of an upstream response.
pub enum Verdict {
    Refused { error: ErrorView },
    Accepted,
}

/// A response is refused where it is not the JSON that was expected, where it reports an error,
/// and where its status is not 200, in this order.
pub open spec fn verdict(
    resource: Resource,
    status: u16,
    payload: Result<Option<Seq<char>>, Seq<char>>,
) -> Verdict {
    match payload {
        Err(message) => Verdict::Refused { error: bad_gateway_view(message) },
        Ok(Some(message)) => Verdict::Refused { error: bad_request_view(message) },
        Ok(None) => if status != 200 {
            Verdict::Refused { error: bad_request_view(status_message(resource)) }
        } else {
            Verdict::Accepted
        },
    }
}

/// The error that a decoded payload reports, or the text of the refusal to decode it.
pub open spec fn payload_view(payload: Result<Option<GoogleApiError>, String>) -> Result<
    Option<Seq<char>>,
    Seq<char>,
> {
    match payload {
        Ok(error) => Ok(api_error_text(error)),
        Err(message) => Err(message@),
    }
}

/// Judges an upstream response.
pub fn judge(
    resource: Resource,
    status: u16,
    payload: Result<Option<GoogleApiError>, String>,
) -> (judged: Result<(), GoogleError>)
    ensures
        match judged {
            Ok(()) => verdict(resource, status, payload_view(payload)) is Accepted,
            Err(error) => verdict(resource, status, payload_view(payload)) == (Verdict::Refused {
                error: error@,
            }),
        },
{
    match payload {
        Err(message) => Err(GoogleError::json_decode(message)),
        Ok(Some(error)) => Err(GoogleError::bad_request(error.message)),
        Ok(None) => {
            if status != 200 {
                match resource {
                    Resource::Metadata => Err(
                        GoogleError::bad_request(
                            "Google Sheets metadata request failed".to_owned(),
                        ),
                    ),
                    Resource::Values => Err(
                        GoogleError::bad_request("Google Sheets request failed".to_owned()),
                    ),
                }
            } else {
                Ok(())
            }
        },
    }
}

/// How far the work of a leader has come.
pub enum WorkState {
    /// It looks into the cache once more.
    Recheck,
    /// It asks the throttle for a slot.
    Queueing,
    /// It sends the request.
    Sending,
    /// It has the response decoded.
    Decoding { status: u16, body: Vec<u8> },
    /// It has the body cached.
    Storing { body: Vec<u8>, ttl_seconds: u64 },
    /// It has its result.
    Finished { outcome: Result<Vec<u8>, GoogleError> },
}

/// How far the work of a leader has come, by the views of what it holds.
pub enum WorkView {
    Recheck,
    Queueing,
    Sending,
    Decoding { status: u16, body: Seq<u8> },
    Storing { body: Seq<u8>, ttl_seconds: u64 },
    Finished { outcome: Result<Seq<u8>, ErrorView> },
}

impl View for WorkState {
    type V = WorkView;

    open spec fn view(&self) -> WorkView {
        match *self {
            WorkState::Recheck => WorkView::Recheck,
            WorkState::Queueing => WorkView::Queueing,
            WorkState::Sending => WorkView::Sending,
            WorkState::Decoding { status, body } => WorkView::Decoding { status, body: body@ },
            WorkState::Storing { body, ttl_seconds } => WorkView::Storing {
                body: body@,
                ttl_seconds,
            },
            WorkState::Finished { outcome } => WorkView::Finished {
                outcome: outcome_view(outcome),
            },
        }
    }
}

/// What a cache read says: a body, nothing, or the text of a failure.
pub open spec fn read_view(read: Result<Option<Vec<u8>>, String>) -> Result<
    Option<Seq<u8>>,
    Seq<char>,
> {
    match read {
        Ok(Some(body)) => Ok(Some(body@)),
        Ok(None) => Ok(None),
        Err(reason) => Err(reason@),
    }
}

/// What a write says: that it is done, or the text of a failure.
pub open spec fn write_view(written: Result<(), String>) -> Result<(), Seq<char>> {
    match written {
        Ok(()) => Ok(()),
        Err(reason) => Err(reason@),
    }
}

/// What the throttle says: a slot, or an error.
pub open spec fn admission_view(admitted: Result<(), GoogleError>) -> Result<(), ErrorView> {
    match admitted {
        Ok(()) => Ok(()),
        Err(error) => Err(error@),
    }
}

/// What sending says: a status and a body, or the error of a failure.
pub open spec fn response_view(sent: Result<(u16, Vec<u8>), SendFailure>) -> Result<
    (u16, Seq<u8>),
    ErrorView,
> {
    match sent {
        Ok((status, body)) => Ok((status, body@)),
        Err(failure) => Err(failure_view(failure)),
    }
}

/// After the second look into the cache: only a miss goes on to the throttle.
pub open spec fn work_rechecked(read: Result<Option<Seq<u8>>, Seq<char>>) -> WorkView {
    match read {
        Err(reason) => WorkView::Finished { outcome: Err(cache_view(reason)) },
        Ok(Some(body)) => WorkView::Finished { outcome: Ok(body) },
        Ok(None) => WorkView::Queueing,
    }
}

/// After the throttle has answered.
pub open spec fn work_admitted(admitted: Result<(), ErrorView>) -> WorkView {
    match admitted {
        Err(error) => WorkView::Finished { outcome: Err(error) },
        Ok(()) => WorkView::Sending,
    }
}

/// After the request is sent.
pub open spec fn work_sent(sent: Result<(u16, Seq<u8>), ErrorView>) -> WorkView {
    match sent {
        Err(error) => WorkView::Finished { outcome: Err(error) },
        Ok((status, body)) => WorkView::Decoding { status, body },
    }
}

/// After the response is decoded: only an accepted response is cached.
pub open spec fn work_decoded(
    resource: Resource,
    status: u16,
    body: Seq<u8>,
    payload: Result<Option<Seq<char>>, Seq<char>>,
    ttl_seconds: u64,
) -> WorkView {
    match verdict(resource, status, payload) {
        Verdict::Refused { error } => WorkView::Finished { outcome: Err(error) },
        Verdict::Accepted => WorkView::Storing { body, ttl_seconds },
    }
}

/// After the body is cached.
pub open spec fn work_stored(body: Seq<u8>, written: Result<(), Seq<char>>) -> WorkView {
    match written {
        Err(reason) => WorkView::Finished { outcome: Err(cache_view(reason)) },
        Ok(()) => WorkView::Finished { outcome: Ok(body) },
    }
}

impl WorkState {
    pub fn on_rechecked(self, read: Result<Option<Vec<u8>>, String>) -> (next: Self)
        requires
            self@ is Recheck,
        ensures
            next@ == work_rechecked(read_view(read)),
    {
        match read {
            Err(reason) => WorkState::Finished {
                outcome: Err(GoogleError::cache(reason.as_str())),
            },
            Ok(Some(body)) => WorkState::Finished { outcome: Ok(body) },
            Ok(None) => WorkState::Queueing,
        }
    }

    pub fn on_admitted(self, admitted: Result<(), GoogleError>) -> (next: Self)
        requires
            self@ is Queueing,
        ensures
            next@ == work_admitted(admission_view(admitted)),
    {
        match admitted {
            Err(error) => WorkState::Finished { outcome: Err(error) },
            Ok(()) => WorkState::Sending,
        }
    }

    pub fn on_sent(self, sent: Result<(u16, Vec<u8>), SendFailure>) -> (next: Self)
        requires
            self@ is Sending,
        ensures
            next@ == work_sent(response_view(sent)),
    {
        match sent {
            Err(failure) => WorkState::Finished { outcome: Err(failure.into_error()) },
            Ok((status, body)) => WorkState::Decoding { status, body },
        }
    }

    /// Takes the decoded response, and the time for which a payload is cached now.
    pub fn on_decoded(
        self,
        resource: Resource,
        payload: Result<Option<GoogleApiError>, String>,
        ttl_seconds: u64,
    ) -> (next: Self)
        requires
            self@ is Decoding,
        ensures
            next@ == work_decoded(
                resource,
                self@->Decoding_status,
                self@->Decoding_body,
                payload_view(payload),
                ttl_seconds,
            ),
    {
        match self {
            WorkState::Decoding { status, body } => match judge(resource, status, payload) {
                Err(error) => WorkState::Finished { outcome: Err(error) },
                Ok(()) => WorkState::Storing { body, ttl_seconds },
            },
            other => other,
        }
    }

    pub fn on_stored(self, written: Result<(), String>) -> (next: Self)
        requires
            self@ is Storing,
        ensures
            next@ == work_stored(self@->Storing_body, write_view(written)),
    {
        match self {
            WorkState::Storing { body, .. } => match written {
                Err(reason) => WorkState::Finished {
                    outcome: Err(GoogleError::cache(reason.as_str())),
                },
                Ok(()) => WorkState::Finished { outcome: Ok(body) },
            },
            other => other,
        }
    }
}

/// How far a cached fetch has come.
pub enum FetchState {
    /// It looks into the cache.
    Lookup,
    /// It asks to work on the key.
    Joining,
    /// It leads or follows on the key, or has its result.
    Running { run: RunState },
}

/// How far a cached fetch has come, by the views of what it holds.
pub enum FetchView {
    Lookup,
    Joining,
    Running { run: RunView },
}

impl View for FetchState {
    type V = FetchView;

    open spec fn view(&self) -> FetchView {
        match *self {
            FetchState::Lookup => FetchView::Lookup,
            FetchState::Joining => FetchView::Joining,
            FetchState::Running { run } => FetchView::Running { run: run@ },
        }
    }
}

/// A fetch that is over.
pub open spec fn fetch_done(outcome: Result<Seq<u8>, ErrorView>) -> FetchView {
    FetchView::Running { run: RunView::Done { outcome } }
}

/// After the first look into the cache: a hit is the result, a miss asks to work on the key.
pub open spec fn fetch_looked_up(read: Result<Option<Seq<u8>>, Seq<char>>) -> FetchView {
    match read {
        Err(reason) => fetch_done(Err(cache_view(reason))),
        Ok(Some(body)) => fetch_done(Ok(body)),
        Ok(None) => FetchView::Joining,
    }
}

impl FetchState {
    pub fn on_looked_up(self, read: Result<Option<Vec<u8>>, String>) -> (next: Self)
        requires
            self@ is Lookup,
        ensures
            next@ == fetch_looked_up(read_view(read)),
    {
        match read {
            Err(reason) => FetchState::Running {
                run: RunState::Done { outcome: Err(GoogleError::cache(reason.as_str())) },
            },
            Ok(Some(body)) => FetchState::Running { run: RunState::Done { outcome: Ok(body) } },
            Ok(None) => FetchState::Joining,
        }
    }

    /// Takes the start of the run that the table of requests in flight gave.
    pub fn on_joined(self, run: RunState) -> (next: Self)
        requires
            self@ is Joining,
        ensures
            next@ == (FetchView::Running { run: run@ }),
    {
        FetchState::Running { run }
    }

    /// Takes the result of the work, or the one that the leader published.
    pub fn on_resolved(self, outcome: Result<Vec<u8>, GoogleError>) -> (next: Self)
        requires
            self@ matches FetchView::Running { run } && (run is Operating || run is Waiting),
        ensures
            next@ == (FetchView::Running {
                run: run_resolved(self@->Running_run, outcome_view(outcome)),
            }),
    {
        match self {
            FetchState::Running { run } => FetchState::Running { run: run.on_resolved(outcome) },
            other => other,
        }
    }

    /// Takes the word that the result is published.
    pub fn on_published(self) -> (next: Self)
        requires
            self@ matches FetchView::Running { run } && run is Publishing,
        ensures
            next@ == fetch_done(self@->Running_run->Publishing_outcome),
    {
        match self {
            FetchState::Running { run } => FetchState::Running { run: run.on_published() },
            other => other,
        }
    }
}

/// Only a fetch that misses the cache twice asks the throttle for a slot.
pub proof fn only_misses_are_throttled(read: Result<Option<Seq<u8>>, Seq<char>>)
    ensures
        fetch_looked_up(read) is Joining <==> read == Ok::<Option<Seq<u8>>, Seq<char>>(None),
        work_rechecked(read) is Queueing <==> read == Ok::<Option<Seq<u8>>, Seq<char>>(None),
{
}

/// Only a response of status 200 that decodes and reports no error is cached, and it is cached
/// as it came.
pub proof fn only_good_responses_are_cached(
    resource: Resource,
    status: u16,
    body: Seq<u8>,
    payload: Result<Option<Seq<char>>, Seq<char>>,
    ttl_seconds: u64,
)
    ensures
        work_decoded(resource, status, body, payload, ttl_seconds) is Storing <==> status == 200
            && payload == Ok::<Option<Seq<char>>, Seq<char>>(None),
        work_decoded(resource, status, body, payload, ttl_seconds) is Storing ==> work_decoded(
            resource,
            status,
            body,
            payload,
            ttl_seconds,
        ) == (WorkView::Storing { body, ttl_seconds }),
{
}

/// The work of a leader, step by step, on the answers that it is given.
pub open spec fn work_run(
    resource: Resource,
    read: Result<Option<Seq<u8>>, Seq<char>>,
    admitted: Result<(), ErrorView>,
    sent: Result<(u16, Seq<u8>), ErrorView>,
    payload: Result<Option<Seq<char>>, Seq<char>>,
    ttl_seconds: u64,
    written: Result<(), Seq<char>>,
) -> WorkView {
    match work_rechecked(read) {
        WorkView::Queueing => match work_admitted(admitted) {
            WorkView::Sending => match work_sent(sent) {
                WorkView::Decoding { status, body } => match work_decoded(
                    resource,
                    status,
                    body,
                    payload,
                    ttl_seconds,
                ) {
                    WorkView::Storing { body, .. } => work_stored(body, written),
                    state => state,
                },
                state => state,
            },
            state => state,
        },
        state => state,
    }
}

/// The work of a leader always comes to a result. It succeeds with the body that the cache had
/// in the meantime, or else with the body of a good response that was cached; else the first
/// thing that went wrong is its error.
pub proof fn work_comes_to_a_result(
    resource: Resource,
    read: Result<Option<Seq<u8>>, Seq<char>>,
    admitted: Result<(), ErrorView>,
    sent: Result<(u16, Seq<u8>), ErrorView>,
    payload: Result<Option<Seq<char>>, Seq<char>>,
    ttl_seconds: u64,
    written: Result<(), Seq<char>>,
)
    ensures
        ({
            let end = work_run(resource, read, admitted, sent, payload, ttl_seconds, written);
            &&& end is Finished
            &&& end->Finished_outcome is Ok <==> {
                ||| read matches Ok(Some(_))
                ||| {
                    &&& read matches Ok(None)
                    &&& admitted is Ok
                    &&& sent matches Ok((status, _)) && status == 200
                    &&& payload matches Ok(None)
                    &&& written is Ok
                }
            }
            &&& end->Finished_outcome matches Ok(body) ==> match read {
                Ok(Some(cached)) => body == cached,
                _ => body == sent->Ok_0.1,
            }
        }),
{
}

/// Fetches of different payloads have different keys; for the values of two sheets, where no
/// spreadsheet id holds a colon.
pub proof fn targets_have_their_own_keys(
    id: Seq<char>,
    title: Seq<char>,
    other_id: Seq<char>,
    other_title: Seq<char>,
    api_key: Seq<char>,
)
    ensures
        !id.contains(':') && !other_id.contains(':') ==> (store_key_view(
            values_target(id, title, api_key),
        ) == store_key_view(values_target(other_id, other_title, api_key)) <==> id == other_id
            && title == other_title),
        store_key_view(metadata_target(id, api_key)) == store_key_view(
            metadata_target(other_id, api_key),
        ) <==> id == other_id,
        store_key_view(metadata_target(id, api_key)) != store_key_view(
            values_target(other_id, other_title, api_key),
        ),
{
    reveal_strlit("m");
    reveal_strlit("v");
    let values = values_target(id, title, api_key).cache_key;
    let other_values = values_target(other_id, other_title, api_key).cache_key;
    let metadata = metadata_target(id, api_key).cache_key;
    let other_metadata = metadata_target(other_id, api_key).cache_key;
    kinds_do_not_meet("v"@, values, "v"@, other_values);
    kinds_do_not_meet("m"@, metadata, "m"@, other_metadata);
    kinds_do_not_meet("m"@, metadata, "v"@, other_values);
    if !id.contains(':') && !other_id.contains(':') {
        kinds_do_not_meet(id, title, other_id, other_title);
    }
    let values_head = "values:"@.len() as int;
    assert(values.skip(values_head) == prefixed_key(id, title));
    assert(other_values.skip(values_head) == prefixed_key(other_id, other_title));
    let metadata_head = "metadata:"@.len() as int;
    assert(metadata.skip(metadata_head) == id);
    assert(other_metadata.skip(metadata_head) == other_id);
    assert("m"@[0] != "v"@[0]);
}

/// Once the payload of a target is removed from the cache, the next fetch of it asks upstream;
/// the reads of every other key are as they were before.
pub proof fn removed_payloads_are_fetched_anew(store: StoreView, target: TargetView, now: u64)
    requires
        consistent(store),
    ensures
        ({
            let key = store_key_view(target);
            let after = applied_all(store, remove_ops(entry_at(store, key), key));
            &&& consistent(after)
            &&& fetch_looked_up(Ok(read_body(after, key, now))) is Joining
            &&& forall|other: Seq<char>|
                other != key ==> #[trigger] read_body(after, other, now) == read_body(
                    store,
                    other,
                    now,
                )
        }),
{
    remove_drops_one_entry(store, store_key_view(target));
}

/// A fetch, step by step: what the cache says, whether it leads on its key if that is a miss,
/// and the result of its work or of the leader.
pub open spec fn fetch_run(
    read: Result<Option<Seq<u8>>, Seq<char>>,
    leads: bool,
    outcome: Result<Seq<u8>, ErrorView>,
) -> FetchView {
    match fetch_looked_up(read) {
        FetchView::Joining => match run_resolved(run_started(leads), outcome) {
            RunView::Publishing { outcome } => fetch_done(outcome),
            run => FetchView::Running { run },
        },
        state => state,
    }
}

/// A fetch always comes to a result: the cached body, the failure of the cache, or on a miss the
/// one result of the work on its key, whether it leads or follows.
pub proof fn fetches_come_to_a_result(
    read: Result<Option<Seq<u8>>, Seq<char>>,
    leads: bool,
    outcome: Result<Seq<u8>, ErrorView>,
)
    ensures
        fetch_run(read, leads, outcome) == fetch_done(
            match read {
                Ok(Some(body)) => Ok(body),
                Ok(None) => outcome,
                Err(reason) => Err(cache_view(reason)),
            },
        ),
{
}

/// A payload that was cached is served without asking upstream until its time to live has
/// passed; from then on it is fetched anew.
pub proof fn cached_payloads_are_served_until_they_expire(
    store: StoreView,
    target: TargetView,
    body: Seq<u8>,
    ttl_seconds: u64,
    swept_at: u64,
    written_at: u64,
    read_at: u64,
)
    requires
        consistent(store),
        written_at + ttl_seconds <= u64::MAX,
    ensures
        ({
            let key = store_key_view(target);
            let after = written(store, key, body, ttl_seconds, swept_at, written_at);
            fetch_looked_up(Ok(read_body(after, key, read_at))) == if read_at < written_at
                + ttl_seconds {
                fetch_done(Ok(body))
            } else {
                FetchView::Joining
            }
        }),
{
    read_gives_back_what_was_written(
        store,
        store_key_view(target),
        body,
        ttl_seconds,
        swept_at,
        written_at,
        read_at,
    );
}

/// What is fetched is spelled out: the URL has the whole id and the encoded title between fixed
/// words, and ends with the key; the cache keys have the id and the title as they are.
pub proof fn targets_are_spelled_out(id: Seq<char>, title: Seq<char>, api_key: Seq<char>)
    ensures
        metadata_target(id, api_key).resource == Resource::Metadata,
        metadata_target(id, api_key).url == "https://sheets.googleapis.com/v4/spreadsheets/"@ + id
            + "?key="@ + api_key,
        metadata_target(id, api_key).cache_key == "metadata:"@ + id,
        store_key_view(metadata_target(id, api_key)) == "m:"@ + ("metadata:"@ + id),
        values_target(id, title, api_key).resource == Resource::Values,
        values_target(id, title, api_key).url
            == "https://sheets.googleapis.com/v4/spreadsheets/"@ + id + "/values/"@
            + percent_encoded(encode_utf8(title)) + "?key="@ + api_key,
        values_target(id, title, api_key).cache_key == "values:"@ + id + ":"@ + title,
        store_key_view(values_target(id, title, api_key)) == "v:"@ + ("values:"@ + id + ":"@
            + title),
{
    reveal_strlit(":");
    reveal_strlit("m");
    reveal_strlit("v");
    reveal_strlit("m:");
    reveal_strlit("v:");
    assert(values_target(id, title, api_key).cache_key == "values:"@ + id + ":"@ + title);
    assert(store_key_view(metadata_target(id, api_key)) == "m:"@ + ("metadata:"@ + id));
    assert(store_key_view(values_target(id, title, api_key)) == "v:"@ + ("values:"@ + id + ":"@
        + title));
}

/// Where two texts meet a separator that is in neither, what is before it and what is behind it
/// are told apart.
proof fn lemma_cut(
    left: Seq<char>,
    right: Seq<char>,
    separator: char,
    behind_left: Seq<char>,
    behind_right: Seq<char>,
)
    requires
        !left.contains(separator),
        !right.contains(separator),
        left + seq![separator] + behind_left == right + seq![separator] + behind_right,
    ensures
        left == right,
        behind_left == behind_right,
{
    let whole = left + seq![separator] + behind_left;
    assert(whole[left.len() as int] == separator);
    assert(whole[right.len() as int] == separator);
    if left.len() < right.len() {
        assert(whole[left.len() as int] == right[left.len() as int]);
        assert(right.contains(right[left.len() as int]));
    }
    if right.len() < left.len() {
        assert(whole[right.len() as int] == left[right.len() as int]);
        assert(left.contains(left[right.len() as int]));
    }
    assert(whole.take(left.len() as int) == left);
    assert(whole.take(left.len() as int) == right);
    assert(whole.skip((left.len() + 1) as int) == behind_left);
    assert(whole.skip((left.len() + 1) as int) == behind_right);
}

proof fn lemma_encoding_without_question(bytes: Seq<u8>)
    ensures
        !percent_encoded(bytes).contains('?'),
    decreases bytes.len(),
{
    if bytes.len() > 0 {
        lemma_encoding_without_question(bytes.skip(1));
        let head = percent_encoded_byte(bytes[0]);
        let tail = percent_encoded(bytes.skip(1));
        assert forall|i: int| 0 <= i < percent_encoded(bytes).len() implies percent_encoded(
            bytes,
        )[i] != '?' by {
            if i >= head.len() {
                assert(percent_encoded(bytes)[i] == tail[i - head.len()]);
                assert(tail.contains(tail[i - head.len()]));
            }
        }
    }
}

/// Different spreadsheets and sheets are fetched from different URLs: the URL gives the id and the
/// title back, where ids hold neither `/` nor `?`.
pub proof fn targets_have_their_own_urls(
    id: Seq<char>,
    title: Seq<char>,
    other_id: Seq<char>,
    other_title: Seq<char>,
    api_key: Seq<char>,
)
    requires
        !id.contains('/') && !id.contains('?'),
        !other_id.contains('/') && !other_id.contains('?'),
    ensures
        values_target(id, title, api_key).url == values_target(other_id, other_title, api_key).url
            <==> id == other_id && title == other_title,
        metadata_target(id, api_key).url == metadata_target(other_id, api_key).url <==> id
            == other_id,
        metadata_target(id, api_key).url != values_target(other_id, other_title, api_key).url,
{
    reveal_strlit("/values/");
    reveal_strlit("?key=");
    let base = "https://sheets.googleapis.com/v4/spreadsheets/"@;
    let encoded = percent_encoded(encode_utf8(title));
    let other_encoded = percent_encoded(encode_utf8(other_title));
    let key_tail = "?key="@.skip(1) + api_key;
    let values_tail = "/values/"@.skip(1);
    let values = values_target(id, title, api_key).url;
    let other_values = values_target(other_id, other_title, api_key).url;
    let metadata = metadata_target(id, api_key).url;
    let other_metadata = metadata_target(other_id, api_key).url;
    let behind = values_tail + (encoded + seq!['?'] + key_tail);
    let other_behind = values_tail + (other_encoded + seq!['?'] + key_tail);
    assert(values.skip(base.len() as int) == id + seq!['/'] + behind);
    assert(other_values.skip(base.len() as int) == other_id + seq!['/'] + other_behind);
    assert(metadata.skip(base.len() as int) == id + seq!['?'] + key_tail);
    assert(other_metadata.skip(base.len() as int) == other_id + seq!['?'] + key_tail);
    lemma_encoding_without_question(encode_utf8(title));
    lemma_encoding_without_question(encode_utf8(other_title));
    if values == other_values {
        lemma_cut(id, other_id, '/', behind, other_behind);
        assert(behind.skip(values_tail.len() as int) == encoded + seq!['?'] + key_tail);
        assert(other_behind.skip(values_tail.len() as int) == other_encoded + seq!['?']
            + key_tail);
        lemma_cut(encoded, other_encoded, '?', key_tail, key_tail);
        encoding_is_undone(title);
        encoding_is_undone(other_title);
    }
    if metadata == other_metadata {
        lemma_cut(id, other_id, '?', key_tail, key_tail);
    }
    if metadata == other_values {
        let whole = id + seq!['?'] + key_tail;
        assert(whole == other_id + seq!['/'] + other_behind);
        assert(whole[id.len() as int] == '?');
        assert(whole[other_id.len() as int] == '/');
        if id.len() < other_id.len() {
            assert(whole[id.len() as int] == other_id[id.len() as int]);
            assert(other_id.contains(other_id[id.len() as int]));
        } else if other_id.len() < id.len() {
            assert(whole[other_id.len() as int] == id[other_id.len() as int]);
            assert(id.contains(id[other_id.len() as int]));
        }
    }
}

/// A response is judged by the first thing that is wrong with it: that it does not decode, that it
/// reports an error, that its status is not 200.
pub proof fn responses_are_judged_in_order(resource: Resource, status: u16, message: Seq<char>)
    ensures
        verdict(resource, status, Err(message)) == (Verdict::Refused {
            error: ErrorView { message, status: 502 },
        }),
        verdict(resource, status, Ok(Some(message))) == (Verdict::Refused {
            error: ErrorView { message, status: 400 },
        }),
        verdict(resource, 200, Ok(None)) is Accepted,
        status != 200 ==> verdict(Resource::Metadata, status, Ok(None)) == (Verdict::Refused {
            error: ErrorView { message: "Google Sheets metadata request failed"@, status: 400 },
        }),
        status != 200 ==> verdict(Resource::Values, status, Ok(None)) == (Verdict::Refused {
            error: ErrorView { message: "Google Sheets request failed"@, status: 400 },
        }),
{
}

/// The work of a leader that comes to no body fails with the first thing that went wrong.
pub proof fn work_fails_with_the_first_thing_wrong(
    resource: Resource,
    read: Result<Option<Seq<u8>>, Seq<char>>,
    admitted: Result<(), ErrorView>,
    sent: Result<(u16, Seq<u8>), ErrorView>,
    payload: Result<Option<Seq<char>>, Seq<char>>,
    ttl_seconds: u64,
    written: Result<(), Seq<char>>,
)
    ensures
        ({
            let end = work_run(resource, read, admitted, sent, payload, ttl_seconds, written);
            &&& read matches Err(reason) ==> end == (WorkView::Finished {
                outcome: Err(ErrorView { message: "Cache error: "@ + reason, status: 500 }),
            })
            &&& read == Ok::<Option<Seq<u8>>, Seq<char>>(None) ==> {
                &&& admitted matches Err(error) ==> end == (WorkView::Finished {
                    outcome: Err(error),
                })
                &&& admitted is Ok ==> {
                    &&& sent matches Err(error) ==> end == (WorkView::Finished {
                        outcome: Err(error),
                    })
                    &&& sent is Ok ==> match verdict(resource, sent->Ok_0.0, payload) {
                        Verdict::Refused { error } => end == (WorkView::Finished {
                            outcome: Err(error),
                        }),
                        Verdict::Accepted => written matches Err(reason) ==> end == (
                        WorkView::Finished {
                            outcome: Err(
                                ErrorView { message: "Cache error: "@ + reason, status: 500 },
                            ),
                        }),
                    }
                }
            }
        }),
{
}

/// A hit, a miss and a failure of the cache each lead on as they should, at the first look and at
/// the second; a body that was cached is the result.
pub proof fn looks_into_the_cache_decide(body: Seq<u8>, reason: Seq<char>)
    ensures
        fetch_looked_up(Ok(Some(body))) == (FetchView::Running {
            run: RunView::Done { outcome: Ok(body) },
        }),
        fetch_looked_up(Ok(None)) == FetchView::Joining,
        fetch_looked_up(Err(reason)) == (FetchView::Running {
            run: RunView::Done {
                outcome: Err(ErrorView { message: "Cache error: "@ + reason, status: 500 }),
            },
        }),
        work_rechecked(Ok(Some(body))) == (WorkView::Finished { outcome: Ok(body) }),
        work_rechecked(Ok(None)) == WorkView::Queueing,
        work_admitted(Ok(())) == WorkView::Sending,
        work_stored(body, Ok(())) == (WorkView::Finished { outcome: Ok(body) }),
        fetch_done(Ok(body)) == (FetchView::Running { run: RunView::Done { outcome: Ok(body) } }),
{
}

/// A response goes on with its own status and its whole body.
pub proof fn responses_go_on_whole(status: u16, body: Seq<u8>, error: ErrorView)
    ensures
        work_sent(Ok((status, body))) == (WorkView::Decoding { status, body }),
        work_sent(Err(error)) == (WorkView::Finished { outcome: Err(error) }),
        fetch_done(Err(error)) == (FetchView::Running {
            run: RunView::Done { outcome: Err(error) },
        }),
{
}

/// What is handed to a fetch is read as it is: bodies in full, failures by their texts and the
/// status that answers for them.
pub proof fn answers_are_read_as_they_are(
    status: u16,
    body: Vec<u8>,
    text: String,
    error: GoogleError,
    reported: GoogleApiError,
)
    ensures
        read_view(Ok(Some(body))) == Ok::<Option<Seq<u8>>, Seq<char>>(Some(body@)),
        read_view(Ok(None)) == Ok::<Option<Seq<u8>>, Seq<char>>(None),
        read_view(Err(text)) == Err::<Option<Seq<u8>>, Seq<char>>(text@),
        write_view(Ok(())) == Ok::<(), Seq<char>>(()),
        write_view(Err(text)) == Err::<(), Seq<char>>(text@),
        admission_view(Ok(())) == Ok::<(), ErrorView>(()),
        admission_view(Err(error)) == Err::<(), ErrorView>(error@),
        response_view(Ok((status, body))) == Ok::<(u16, Seq<u8>), ErrorView>((status, body@)),
        response_view(Err(SendFailure::Build(text))) == Err::<(u16, Seq<u8>), ErrorView>(
            ErrorView { message: text@, status: 500 },
        ),
        response_view(Err(SendFailure::Upstream(text))) == Err::<(u16, Seq<u8>), ErrorView>(
            ErrorView { message: text@, status: 502 },
        ),
        response_view(Err(SendFailure::Body(text))) == Err::<(u16, Seq<u8>), ErrorView>(
            ErrorView { message: text@, status: 502 },
        ),
        failure_view(SendFailure::Build(text)) == (ErrorView { message: text@, status: 500 }),
        failure_view(SendFailure::Upstream(text)) == (ErrorView { message: text@, status: 502 }),
        failure_view(SendFailure::Body(text)) == (ErrorView { message: text@, status: 502 }),
        payload_view(Ok(None)) == Ok::<Option<Seq<char>>, Seq<char>>(None),
        payload_view(Ok(Some(reported))) == Ok::<Option<Seq<char>>, Seq<char>>(
            Some(reported.message@),
        ),
        payload_view(Err(text)) == Err::<Option<Seq<char>>, Seq<char>>(text@),
{
}

/// A target and the states of a fetch show what they hold.
pub proof fn fetches_show_what_they_hold(
    target: FetchTarget,
    status: u16,
    body: Vec<u8>,
    ttl_seconds: u64,
    outcome: Result<Vec<u8>, GoogleError>,
    run: RunState,
)
    ensures
        target@.resource == target.resource,
        target@.cache_key == target.cache_key@,
        target@.url == target.url@,
        WorkState::Recheck@ == WorkView::Recheck,
        WorkState::Queueing@ == WorkView::Queueing,
        WorkState::Sending@ == WorkView::Sending,
        (WorkState::Decoding { status, body })@ == (WorkView::Decoding { status, body: body@ }),
        (WorkState::Storing { body, ttl_seconds })@ == (WorkView::Storing {
            body: body@,
            ttl_seconds,
        }),
        (WorkState::Finished { outcome })@ == (WorkView::Finished {
            outcome: outcome_view(outcome),
        }),
        FetchState::Lookup@ == FetchView::Lookup,
        FetchState::Joining@ == FetchView::Joining,
        (FetchState::Running { run })@ == (FetchView::Running { run: run@ }),
{
}

} // verus!

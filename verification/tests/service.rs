use std::collections::{BTreeMap, BTreeSet};

use gsheet::clock::now_unix_seconds;
use gsheet::config::{ServiceConfig, Settings};
use gsheet::error::GoogleError;
use gsheet::inflight::RunState;
use gsheet::json::Json;
use gsheet::reply::HttpReply;
use gsheet::route::RequestLine;
use gsheet::rows::{
    GoogleApiError, SheetValuesResponse, SpreadsheetMetadataResponse, SpreadsheetSheet,
    SpreadsheetSheetProperties,
};
use gsheet::service::{Purpose, RequestState, Service};
use gsheet::store::{cache_key_prefix, CacheEntry, HeedCache, StoreOp};
use gsheet::upstream::{FetchState, FetchTarget};
use serde_json::Value;

const README_URL: &str = "https://github.com/devazuka/gsheet#readme";

struct Tables {
    entries: BTreeMap<String, CacheEntry>,
    expiry: BTreeSet<Vec<u8>>,
}

impl Tables {
    fn new() -> Self {
        Tables { entries: BTreeMap::new(), expiry: BTreeSet::new() }
    }

    fn apply(&mut self, ops: Vec<StoreOp>) {
        for op in ops {
            match op {
                StoreOp::PutEntry { key, entry } => {
                    self.entries.insert(key, entry);
                }
                StoreOp::DeleteEntry { key } => {
                    self.entries.remove(&key);
                }
                StoreOp::PutExpiry { index_key } => {
                    self.expiry.insert(index_key);
                }
                StoreOp::DeleteExpiry { index_key } => {
                    self.expiry.remove(&index_key);
                }
            }
        }
    }

    fn found(&self, key: &str) -> Option<CacheEntry> {
        self.entries.get(key).map(|entry| CacheEntry {
            body: entry.body.clone(),
            expires_at_unix_seconds: entry.expires_at_unix_seconds,
        })
    }

    fn purge(&mut self, now: u64) -> Result<(), String> {
        let index: Vec<Vec<u8>> = self.expiry.iter().cloned().collect();
        let ops = HeedCache {}.purge_expired(&index, now).map_err(|error| error.message())?;
        self.apply(ops);
        Ok(())
    }

    fn get(&mut self, key: &str) -> Result<Option<Vec<u8>>, String> {
        self.purge(now())?;
        Ok(HeedCache {}.get(self.found(key)))
    }

    fn put(&mut self, key: &str, body: &[u8], ttl_seconds: u64) {
        self.purge(now()).expect("purge");
        let ops = HeedCache {}.put(self.entries.get(key), key, body.to_vec(), ttl_seconds, now());
        self.apply(ops);
    }

    fn remove(&mut self, key: &str) -> Result<bool, String> {
        self.purge(now())?;
        let ops = HeedCache {}.remove(self.entries.get(key), key);
        let removed = !ops.is_empty();
        self.apply(ops);
        Ok(removed)
    }

    fn put_metadata(&mut self, key: &str, body: &[u8], ttl_seconds: u64) {
        self.put(&cache_key_prefix("m", key), body, ttl_seconds);
    }

    fn put_values(&mut self, key: &str, body: &[u8], ttl_seconds: u64) {
        self.put(&cache_key_prefix("v", key), body, ttl_seconds);
    }
}

fn now() -> u64 {
    now_unix_seconds().expect("a clock after the epoch")
}

fn no_settings() -> Settings {
    Settings {
        port: None,
        cache_dir: None,
        sheet_max_age_secs: None,
        document_max_age_secs: None,
        error_max_age_secs: None,
        google_cache_ttl_secs: None,
        google_cache_ttl_max_secs: None,
        google_rate_limit: None,
        google_rate_window_secs: None,
        google_max_queued_requests: None,
    }
}

fn service() -> Service {
    let config = ServiceConfig::from_settings(no_settings());
    Service {
        api_key: "test-key".to_string(),
        sheet_max_age_secs: config.sheet_max_age_secs,
        document_max_age_secs: config.document_max_age_secs,
        error_max_age_secs: config.error_max_age_secs,
    }
}

fn request(method: &str, uri: &str) -> RequestLine {
    let uri: hyper::Uri = uri.parse().expect("uri");
    RequestLine {
        method: method.to_string(),
        path: uri.path().to_string(),
        query: uri.query().map(|query| query.to_string()),
        uri: uri.to_string(),
    }
}

fn reported(payload: &Value) -> Option<GoogleApiError> {
    let message = payload.get("error")?.get("message")?.as_str()?;
    Some(GoogleApiError { message: message.to_string() })
}

fn decode_metadata(body: &[u8]) -> Result<SpreadsheetMetadataResponse, String> {
    let payload: Value = serde_json::from_slice(body).map_err(|error| error.to_string())?;
    let mut sheets = Vec::new();
    if let Some(listed) = payload.get("sheets").and_then(Value::as_array) {
        for sheet in listed {
            let title = sheet["properties"]["title"].as_str().ok_or("no title")?.to_string();
            sheets.push(SpreadsheetSheet { properties: SpreadsheetSheetProperties { title } });
        }
    }
    Ok(SpreadsheetMetadataResponse { sheets, error: reported(&payload) })
}

fn decode_values(body: &[u8]) -> Result<SheetValuesResponse, String> {
    let payload: Value = serde_json::from_slice(body).map_err(|error| error.to_string())?;
    let values = payload.get("values").and_then(Value::as_array).map(|rows| {
        rows.iter()
            .map(|row| {
                row.as_array()
                    .expect("a row")
                    .iter()
                    .map(|cell| Json::from_value(cell.clone()))
                    .collect()
            })
            .collect()
    });
    Ok(SheetValuesResponse { values, error: reported(&payload) })
}

fn fetch(tables: &mut Tables, target: &FetchTarget) -> Result<Vec<u8>, GoogleError> {
    match FetchState::Lookup.on_looked_up(tables.get(&target.store_key())) {
        FetchState::Running { run: RunState::Done { outcome } } => outcome,
        _ => Err(GoogleError::upstream(format!("offline: {}", target.url))),
    }
}

fn respond(tables: &mut Tables, method: &str, uri: &str) -> HttpReply {
    let service = service();
    let mut state = service.route_request(&request(method, uri));
    loop {
        state = match state {
            RequestState::Answered { reply } => return reply,
            RequestState::Fetching { purpose, target } => {
                let outcome = fetch(tables, &target);
                service.on_fetched(RequestState::Fetching { purpose, target }, outcome)
            }
            RequestState::Decoding { purpose: Purpose::Titles { raw, id }, body } => {
                let decoded = decode_metadata(&body);
                service.on_metadata(
                    RequestState::Decoding { purpose: Purpose::Titles { raw, id }, body },
                    decoded,
                )
            }
            RequestState::Decoding { purpose, body } => {
                let decoded = decode_values(&body);
                service.on_values(RequestState::Decoding { purpose, body }, decoded)
            }
            RequestState::Removing { target } => {
                let outcome = tables.remove(&target.store_key());
                service.on_removed(RequestState::Removing { target }, outcome)
            }
        };
    }
}

fn header<'a>(reply: &'a HttpReply, name: &str) -> Option<&'a str> {
    reply
        .headers
        .iter()
        .find(|(key, _)| key == name)
        .map(|(_, value)| value.as_str())
}

fn error_text(reply: &HttpReply) -> String {
    let body: Value = serde_json::from_slice(&reply.body).expect("a JSON error");
    assert_eq!(body["documentation"].as_str(), Some(README_URL));
    body["error"].as_str().expect("an error text").to_string()
}

#[test]
fn rejects_any_query_string() {
    let mut tables = Tables::new();
    let reply = respond(&mut tables, "GET", "/spreadsheet/sheet?v=1");

    assert_eq!(reply.status, 400);
}

#[test]
fn rejects_extra_path_segments() {
    let mut tables = Tables::new();
    let reply = respond(&mut tables, "GET", "/spreadsheet/sheet/extra");

    assert_eq!(reply.status, 404);
}

#[test]
fn returns_whole_document_when_path_has_no_sheet_name() {
    let mut tables = Tables::new();
    let spreadsheet_id = "spreadsheet-document";
    tables.put_metadata(
        &format!("metadata:{spreadsheet_id}"),
        br#"{"sheets":[{"properties":{"title":"Sheet One"}},{"properties":{"title":"Sheet Two"}}]}"#,
        60,
    );
    tables.put_values(
        &format!("values:{spreadsheet_id}:Sheet One"),
        br#"{"values":[["name"],["alice"]]}"#,
        60,
    );
    tables.put_values(
        &format!("values:{spreadsheet_id}:Sheet Two"),
        br#"{"values":[["name"],["bob"]]}"#,
        60,
    );

    let reply = respond(&mut tables, "GET", &format!("/{spreadsheet_id}"));

    assert_eq!(reply.status, 200);
    assert_eq!(
        reply.body,
        br#"{"Sheet One":[{"name":"alice"}],"Sheet Two":[{"name":"bob"}]}"#.to_vec()
    );
    assert_eq!(
        header(&reply, "cache-control"),
        Some("public, max-age=3600, s-maxage=3600")
    );
}

#[test]
fn serves_cached_google_values_from_raw_route() {
    let mut tables = Tables::new();
    let spreadsheet_id = "spreadsheet-raw-single";
    let raw_body = br#"{"values":[["name"],["alice"]]}"#;
    tables.put_metadata(
        &format!("metadata:{spreadsheet_id}"),
        br#"{"sheets":[{"properties":{"title":"Sheet One"}}]}"#,
        60,
    );
    tables.put_values(&format!("values:{spreadsheet_id}:Sheet One"), raw_body, 60);

    let reply = respond(&mut tables, "GET", &format!("/raw/{spreadsheet_id}/Sheet%20One"));

    assert_eq!(reply.status, 200);
    assert_eq!(reply.body, raw_body.to_vec());
}

#[test]
fn serves_cached_google_values_for_whole_document_raw_route() {
    let mut tables = Tables::new();
    let spreadsheet_id = "spreadsheet-raw-document";
    tables.put_metadata(
        &format!("metadata:{spreadsheet_id}"),
        br#"{"sheets":[{"properties":{"title":"Sheet One"}},{"properties":{"title":"Sheet Two"}}]}"#,
        60,
    );
    tables.put_values(
        &format!("values:{spreadsheet_id}:Sheet One"),
        br#"{"values":[["name"],["alice"]]}"#,
        60,
    );
    tables.put_values(
        &format!("values:{spreadsheet_id}:Sheet Two"),
        br#"{"values":[["name"],["bob"]]}"#,
        60,
    );

    let reply = respond(&mut tables, "GET", &format!("/raw/{spreadsheet_id}"));

    assert_eq!(reply.status, 200);
    assert_eq!(
        reply.body,
        br#"{"Sheet One":{"values":[["name"],["alice"]]},"Sheet Two":{"values":[["name"],["bob"]]}}"#
            .to_vec()
    );
}

#[test]
fn ignores_trailing_slashes() {
    let mut tables = Tables::new();
    let spreadsheet_id = "spreadsheet-trailing";
    tables.put_values(
        &format!("values:{spreadsheet_id}:Sheet One"),
        br#"{"values":[["name"],["alice"]]}"#,
        60,
    );

    let reply = respond(&mut tables, "GET", &format!("/{spreadsheet_id}/Sheet%20One/"));

    assert_eq!(reply.status, 200);
    assert_eq!(reply.body, br#"[{"name":"alice"}]"#.to_vec());
}

#[test]
fn ignores_slashes_on_every_route() {
    let mut tables = Tables::new();
    assert_eq!(respond(&mut tables, "GET", "///up//").body, b"ok".to_vec());
    assert_eq!(respond(&mut tables, "GET", "//").status, 302);
    tables.put_values("values:s:One", br#"{"values":[["a"]]}"#, 60);
    let raw = respond(&mut tables, "GET", "//raw/s/One///");
    assert_eq!(raw.body, br#"{"values":[["a"]]}"#.to_vec());
    let refreshed = respond(&mut tables, "GET", "/refresh/s/One//");
    assert_eq!(refreshed.body, br#"{"refreshed":true}"#.to_vec());
}

#[test]
fn redirects_the_root_to_the_readme() {
    let reply = respond(&mut Tables::new(), "GET", "/");
    assert_eq!(reply.status, 302);
    assert_eq!(reply.headers, vec![("location".to_string(), README_URL.to_string())]);
    assert_eq!(reply.body, Vec::<u8>::new());
}

#[test]
fn answers_that_it_is_up() {
    let reply = respond(&mut Tables::new(), "GET", "/up");
    assert_eq!(reply.status, 200);
    assert_eq!(reply.headers, Vec::<(String, String)>::new());
    assert_eq!(reply.body, b"ok".to_vec());
}

#[test]
fn serves_only_get() {
    let reply = respond(&mut Tables::new(), "POST", "/up?now");
    assert_eq!(reply.status, 404);
    assert_eq!(
        error_text(&reply),
        "URL format is /spreadsheet_id[/sheet_name] or /raw/spreadsheet_id[/sheet_name]"
    );
}

#[test]
fn rejects_queries_on_every_path() {
    let mut tables = Tables::new();
    for uri in ["/?v=1", "/up?", "/raw/s?x", "/refresh/s/One?now=1"] {
        let reply = respond(&mut tables, "GET", uri);
        assert_eq!(reply.status, 400);
        assert_eq!(
            error_text(&reply),
            format!("Query parameters are not supported. Your request was: {uri}")
        );
    }
}

#[test]
fn rejects_paths_that_are_no_route() {
    let mut tables = Tables::new();
    for uri in ["/s//x", "/raw//x", "/raw/s/x/y", "/refresh//x", "/refresh/s/x/y", "/a/b/c/d"] {
        assert_eq!(respond(&mut tables, "GET", uri).status, 404);
    }
}

#[test]
fn reads_plus_as_a_space_and_decodes_titles() {
    let mut tables = Tables::new();
    tables.put_values("values:s:Été + 1", br#"{"values":[["a"],["b"]]}"#, 60);
    let reply = respond(&mut tables, "GET", "/s/%C3%89t%C3%A9+%2B+1");
    assert_eq!(reply.status, 200);
    assert_eq!(reply.body, br#"[{"a":"b"}]"#.to_vec());
}

#[test]
fn rejects_titles_that_are_no_text() {
    let reply = respond(&mut Tables::new(), "GET", "/s/%FF");
    assert_eq!(reply.status, 400);
    assert_eq!(error_text(&reply), "Invalid sheet path encoding");
}

#[test]
fn json_replies_carry_their_headers() {
    let mut tables = Tables::new();
    tables.put_values("values:s:One", br#"{"values":[["a"],["b"]]}"#, 60);
    let reply = respond(&mut tables, "GET", "/s/One");
    assert_eq!(
        reply.headers,
        vec![
            ("content-type".to_string(), "application/json".to_string()),
            ("access-control-allow-origin".to_string(), "*".to_string()),
            (
                "access-control-allow-headers".to_string(),
                "Origin, X-Requested-With, Content-Type, Accept".to_string()
            ),
            (
                "cache-control".to_string(),
                "public, max-age=300, s-maxage=300".to_string()
            ),
        ]
    );
    let refreshed = respond(&mut tables, "GET", "/refresh/s/One");
    assert_eq!(header(&refreshed, "content-type"), Some("application/json"));
    assert_eq!(header(&refreshed, "cache-control"), None);
}

#[test]
fn errors_have_the_documented_shape() {
    let mut tables = Tables::new();
    let reply = respond(&mut tables, "GET", "/a/b/c");
    assert_eq!(
        reply.body,
        br#"{"error":"URL format is /spreadsheet_id[/sheet_name] or /raw/spreadsheet_id[/sheet_name]","documentation":"https://github.com/devazuka/gsheet#readme"}"#
            .to_vec()
    );
    assert_eq!(
        header(&reply, "cache-control"),
        Some("public, max-age=30, s-maxage=30")
    );
}

#[test]
fn refresh_removes_one_sheet() {
    let mut tables = Tables::new();
    tables.put_values("values:s:Sheet One", br#"{"values":[["a"],["b"]]}"#, 60);
    tables.put_values("values:s:Sheet Two", br#"{"values":[["a"],["c"]]}"#, 60);

    let first = respond(&mut tables, "GET", "/refresh/s/Sheet+One");
    assert_eq!(first.status, 200);
    assert_eq!(first.body, br#"{"refreshed":true}"#.to_vec());

    let again = respond(&mut tables, "GET", "/refresh/s/Sheet+One");
    assert_eq!(again.status, 200);
    assert_eq!(again.body, br#"{"refreshed":false}"#.to_vec());

    let missing = respond(&mut tables, "GET", "/s/Sheet+One");
    assert_eq!(missing.status, 502);
    let other = respond(&mut tables, "GET", "/s/Sheet+Two");
    assert_eq!(other.body, br#"[{"a":"c"}]"#.to_vec());
    assert_eq!(tables.expiry.len(), 1);
}

#[test]
fn refresh_reports_a_broken_cache() {
    let service = service();
    let state = service.route_request(&request("GET", "/refresh/s/One"));
    match service.on_removed(state, Err("disk full".to_string())) {
        RequestState::Answered { reply } => {
            assert_eq!(reply.status, 500);
            assert_eq!(error_text(&reply), "Cache error: disk full");
        }
        _ => panic!("not answered"),
    }
}

#[test]
fn payloads_that_do_not_decode_are_bad_gateways() {
    let mut tables = Tables::new();
    tables.put_values("values:s:One", b"not json", 60);
    assert_eq!(respond(&mut tables, "GET", "/s/One").status, 502);
    tables.put_metadata("metadata:s", b"{", 60);
    assert_eq!(respond(&mut tables, "GET", "/s").status, 502);
    tables.put_metadata("metadata:t", br#"{"sheets":[{"properties":{"title":"One"}}]}"#, 60);
    tables.put_values("values:t:One", b"not json", 60);
    let raw = respond(&mut tables, "GET", "/raw/t");
    assert_eq!(raw.status, 502);
    assert_eq!(error_text(&raw), "expected ident at line 1 column 2");
    assert_eq!(respond(&mut tables, "GET", "/raw/t/One").body, b"not json".to_vec());
}

#[test]
fn payloads_that_report_errors_are_bad_requests() {
    let mut tables = Tables::new();
    tables.put_values("values:s:One", br#"{"error":{"message":"no such sheet"}}"#, 60);
    let sheet = respond(&mut tables, "GET", "/s/One");
    assert_eq!(sheet.status, 400);
    assert_eq!(error_text(&sheet), "no such sheet");

    tables.put_metadata("metadata:s", br#"{"error":{"message":"no such document"}}"#, 60);
    let document = respond(&mut tables, "GET", "/raw/s");
    assert_eq!(document.status, 400);
    assert_eq!(error_text(&document), "no such document");

    tables.put_metadata("metadata:t", br#"{"sheets":[{"properties":{"title":"One"}}]}"#, 60);
    tables.put_values("values:t:One", br#"{"error":{"message":"part"}}"#, 60);
    assert_eq!(error_text(&respond(&mut tables, "GET", "/t")), "part");
}

#[test]
fn a_document_fails_with_its_first_missing_sheet() {
    let mut tables = Tables::new();
    tables.put_metadata(
        "metadata:s",
        br#"{"sheets":[{"properties":{"title":"One"}},{"properties":{"title":"Two"}},{"properties":{"title":"Three"}}]}"#,
        60,
    );
    tables.put_values("values:s:One", br#"{"values":[["a"],["b"]]}"#, 60);
    let reply = respond(&mut tables, "GET", "/s");
    assert_eq!(reply.status, 502);
    assert_eq!(
        error_text(&reply),
        "offline: https://sheets.googleapis.com/v4/spreadsheets/s/values/Two?key=test-key"
    );
}

#[test]
fn an_empty_document_is_an_empty_object() {
    let mut tables = Tables::new();
    tables.put_metadata("metadata:s", b"{}", 60);
    assert_eq!(respond(&mut tables, "GET", "/s").body, b"{}".to_vec());
    tables.put_values("values:s:One", b"{}", 60);
    assert_eq!(respond(&mut tables, "GET", "/s/One").body, b"[]".to_vec());
}

#[test]
fn a_broken_index_is_a_cache_error() {
    let mut tables = Tables::new();
    tables.expiry.insert(vec![0, 0]);
    let reply = respond(&mut tables, "GET", "/s/One");
    assert_eq!(reply.status, 500);
    assert_eq!(error_text(&reply), "Cache error: invalid expiry key");
}

#[test]
fn error_messages_are_escaped() {
    let mut tables = Tables::new();
    tables.put_values("values:s:One", br#"{"error":{"message":"a \"b\"\\\n\u0001"}}"#, 60);
    let reply = respond(&mut tables, "GET", "/s/One");
    assert!(reply.body.starts_with(br#"{"error":"a \"b\"\\\n\u0001","documentation":"#));
    assert_eq!(error_text(&reply), "a \"b\"\\\n\u{1}");
}

#[test]
fn of_two_sheets_of_one_title_one_stays() {
    let mut tables = Tables::new();
    tables.put_metadata(
        "metadata:s",
        br#"{"sheets":[{"properties":{"title":"One"}},{"properties":{"title":"One"}}]}"#,
        60,
    );
    tables.put_values("values:s:One", br#"{"values":[["a"],["b"]]}"#, 60);
    assert_eq!(respond(&mut tables, "GET", "/s").body, br#"{"One":[{"a":"b"}]}"#.to_vec());
}

#[test]
fn the_first_word_of_a_path_decides() {
    let mut tables = Tables::new();
    tables.put_values("values:raw:One", b"{\"values\":[]}", 60);
    tables.put_values("values:refresh:One", br#"{"values":[["a"],["b"]]}"#, 60);
    tables.put_metadata("metadata:raw", b"{}", 60);
    assert_eq!(respond(&mut tables, "GET", "/raw/raw/One").body, b"{\"values\":[]}".to_vec());
    assert_eq!(respond(&mut tables, "GET", "/refresh/One").body, br#"[{"a":"b"}]"#.to_vec());
    assert_eq!(respond(&mut tables, "GET", "/raw").body, b"{}".to_vec());
    assert_eq!(respond(&mut tables, "GET", "/raw/raw").body, b"{}".to_vec());
}

use gsheet::cache::{CacheEntry, HeedCache, Table};
use gsheet::error::GoogleError;
use gsheet::google::{
    normalize_cell, rows_of, table_of, values_to_rows, ClientFetch, GoogleSheetsClient, Resolution,
};
use gsheet::json::Json;
use gsheet::rows::{
    GoogleApiError, SheetValuesResponse, SpreadsheetMetadataResponse, SpreadsheetSheet,
    SpreadsheetSheetProperties,
};
use gsheet::upstream::{Resource, SendFailure};
use serde_json::Value;

fn parse(text: &str) -> Value {
    serde_json::from_str(text).expect("JSON")
}

fn cells(text: &str) -> Vec<Vec<Json>> {
    parse(text)
        .as_array()
        .expect("rows")
        .iter()
        .map(|row| {
            row.as_array()
                .expect("a row")
                .iter()
                .map(|cell| Json::from_value(cell.clone()))
                .collect()
        })
        .collect()
}

fn values(rows: Vec<Json>) -> Value {
    Value::Array(rows.into_iter().map(|row| row.into_value()).collect())
}

fn metadata(titles: &[&str]) -> SpreadsheetMetadataResponse {
    SpreadsheetMetadataResponse {
        sheets: titles
            .iter()
            .map(|title| SpreadsheetSheet {
                properties: SpreadsheetSheetProperties { title: title.to_string() },
            })
            .collect(),
        error: None,
    }
}

fn payload(text: &str) -> SheetValuesResponse {
    SheetValuesResponse { values: Some(cells(text)), error: None }
}

fn reporting(message: &str) -> SheetValuesResponse {
    SheetValuesResponse {
        values: None,
        error: Some(GoogleApiError { message: message.to_string() }),
    }
}

fn parts(error: &GoogleError) -> (&str, u16) {
    (error.message.as_str(), error.status)
}

fn finished<P>(fetch: ClientFetch<P>) -> Result<P, GoogleError> {
    match fetch {
        ClientFetch::Finished { outcome } => outcome,
        _ => panic!("the fetch goes on"),
    }
}

fn client() -> GoogleSheetsClient {
    GoogleSheetsClient::new("key".to_string())
}

fn resolve(param: &str, titles: &[&str]) -> Result<String, GoogleError> {
    match client().resolve_sheet_name("id", param) {
        Resolution::Resolved { outcome } => outcome,
        numbered => numbered.on_metadata(Ok(metadata(titles))),
    }
}

#[test]
fn numbers_resolve_to_titles() {
    assert_eq!(resolve("1", &["First", "Second"]).unwrap(), "First");
    assert_eq!(resolve("2", &["First", "Second"]).unwrap(), "Second");
    assert_eq!(resolve("%2B2", &["First", "Second"]).unwrap(), "Second");
    let behind = resolve("3", &["First", "Second"]).unwrap_err();
    assert_eq!(parts(&behind), ("There is no sheet number 3", 400));
    let zero = resolve("0", &["First"]).unwrap_err();
    assert_eq!(parts(&zero), ("For this API, sheet numbers start at 1", 400));
}

#[test]
fn numbers_need_the_metadata_of_their_spreadsheet() {
    match client().resolve_sheet_name("id", "7") {
        Resolution::Numbered { number, label, metadata } => {
            assert_eq!((number, label.as_str()), (7, "7"));
            assert_eq!(metadata.target.cache_key, "metadata:id");
            assert_eq!(
                metadata.target.url,
                "https://sheets.googleapis.com/v4/spreadsheets/id?key=key"
            );
        }
        Resolution::Resolved { .. } => panic!("a number was taken for a title"),
    }
    let failed = client()
        .resolve_sheet_name("id", "7")
        .on_metadata(Err(GoogleError::upstream("down".to_string())));
    assert_eq!(parts(&failed.unwrap_err()), ("down", 502));
}

#[test]
fn other_names_are_titles() {
    assert_eq!(resolve("Sheet+One", &[]).unwrap(), "Sheet One");
    assert_eq!(resolve("Sheet%20One", &[]).unwrap(), "Sheet One");
    assert_eq!(resolve("1a", &[]).unwrap(), "1a");
    assert_eq!(resolve("+1", &[]).unwrap(), " 1");
    assert_eq!(resolve("99999999999999999999", &[]).unwrap(), "99999999999999999999");
    let invalid = resolve("%C3", &[]).unwrap_err();
    assert_eq!(parts(&invalid), ("Invalid sheet path encoding", 400));
}

#[test]
fn a_hit_is_decoded_from_the_cache() {
    let work = client().fetch_rows("id", "Sheet One");
    assert_eq!(work.target.cache_key, "values:id:Sheet One");
    let fetch = work.fetch.on_looked_up(Ok(Some("text".to_string())));
    assert!(matches!(&fetch, ClientFetch::DecodingCached { text } if text == "text"));
    let fetch = fetch.on_cached_decoded(Resource::Values, Ok(payload(r#"[["a"],["b"]]"#)));
    let rows = rows_of(finished(fetch)).unwrap();
    assert_eq!(values(rows), parse(r#"[{"a":"b"}]"#));
}

#[test]
fn cached_texts_fail_by_their_kind() {
    let cached = || ClientFetch::DecodingCached { text: "text".to_string() };
    let rows = cached().on_cached_decoded(Resource::Values, Err("broken".to_string()));
    let rows: Result<SheetValuesResponse, GoogleError> = finished(rows);
    assert_eq!(parts(&rows.err().unwrap()), ("broken", 502));
    let cached = ClientFetch::DecodingCached { text: "text".to_string() };
    let titles = cached.on_cached_decoded(Resource::Metadata, Err("broken".to_string()));
    let titles: Result<SpreadsheetMetadataResponse, GoogleError> = finished(titles);
    assert_eq!(parts(&titles.err().unwrap()), ("Cache error: broken", 500));
    let cached = ClientFetch::DecodingCached { text: "text".to_string() };
    let reported = cached.on_cached_decoded(Resource::Values, Ok(reporting("denied")));
    assert_eq!(parts(&finished(reported).err().unwrap()), ("denied", 400));
}

#[test]
fn a_miss_is_fetched_and_cached() {
    let fetch = client().fetch_rows("id", "One").fetch.on_looked_up(Ok(None));
    assert!(matches!(fetch, ClientFetch::Sending));
    let fetch = fetch.on_sent(Ok((200, b"body".to_vec())));
    assert!(matches!(fetch, ClientFetch::Decoding { status: 200, .. }));
    let fetch = fetch.on_decoded(Resource::Values, Ok(payload(r#"[["a"],["b"]]"#)));
    let fetch = fetch.on_encoded(Ok("text".to_string()));
    match &fetch {
        ClientFetch::Storing { text, ttl_seconds, .. } => {
            assert_eq!((text.as_str(), *ttl_seconds), ("text", 300));
        }
        _ => panic!("nothing is stored"),
    }
    let rows = rows_of(finished(fetch.on_stored(Ok(())))).unwrap();
    assert_eq!(values(rows), parse(r#"[{"a":"b"}]"#));
}

#[test]
fn every_step_of_a_miss_can_fail() {
    let start = || client().fetch_rows("id", "One").fetch;
    let read = start().on_looked_up(Err("read".to_string()));
    assert_eq!(parts(&finished(read).err().unwrap()), ("Cache error: read", 500));
    let sending = || start().on_looked_up(Ok(None));
    let sent = sending().on_sent(Err(SendFailure::Upstream("down".to_string())));
    assert_eq!(parts(&finished(sent).err().unwrap()), ("down", 502));
    let decoding = |status| sending().on_sent(Ok((status, Vec::new())));
    let broken = decoding(200).on_decoded(Resource::Values, Err("no json".to_string()));
    assert_eq!(parts(&finished(broken).err().unwrap()), ("no json", 502));
    let reported = decoding(200).on_decoded(Resource::Values, Ok(reporting("denied")));
    assert_eq!(parts(&finished(reported).err().unwrap()), ("denied", 400));
    let status = decoding(500).on_decoded(Resource::Values, Ok(payload("[]")));
    assert_eq!(
        parts(&finished(status).err().unwrap()),
        ("Google Sheets request failed", 400)
    );
    let encoding = || decoding(200).on_decoded(Resource::Values, Ok(payload("[]")));
    let encoded = encoding().on_encoded(Err("encode".to_string()));
    assert_eq!(parts(&finished(encoded).err().unwrap()), ("Cache error: encode", 500));
    let storing = encoding().on_encoded(Ok("text".to_string()));
    let written = storing.on_stored(Err("write".to_string()));
    assert_eq!(parts(&finished(written).err().unwrap()), ("Cache error: write", 500));
}

#[test]
fn nested_cells_become_texts() {
    let rows = values_to_rows(cells(
        r#"[["a","b","c",["d"],"e"],[1,true,null,"x",[1,{"k":"v"}],{"z":1,"y":2}]]"#,
    ));
    assert_eq!(
        values(rows),
        parse(
            r#"[{"a":1,"b":true,"c":null,"undefined":"{\"y\":2,\"z\":1}","e":"[1,{\"k\":\"v\"}]"}]"#
        )
    );
    assert_eq!(
        normalize_cell(Json::from_value(parse("[1, 2]"))).into_value(),
        Value::String("[1,2]".to_string())
    );
    assert_eq!(values(values_to_rows(Vec::new())), parse("[]"));
}

#[test]
fn missing_values_are_no_rows() {
    let outcome = Ok(SheetValuesResponse { values: None, error: None });
    assert!(rows_of(outcome).unwrap().is_empty());
    let error = rows_of(Err(GoogleError::bad_request("no".to_string()))).err().unwrap();
    assert_eq!(parts(&error), ("no", 400));
}

#[test]
fn the_cache_reads_what_it_wrote() {
    let cache = HeedCache {};
    let write = cache.put_metadata("metadata:id", "text", 300, 1000);
    assert!(write.table == Table::Metadata && write.key == "metadata:id");
    assert_eq!(write.entry.expires_at_unix_seconds, 1300);
    let stored = |expires| {
        Some(CacheEntry { body: write.entry.body.clone(), expires_at_unix_seconds: expires })
    };
    let read = || cache.get_metadata("metadata:id");
    assert!(read().table == Table::Metadata && read().key == "metadata:id");
    assert_eq!(read().on_entry(stored(1300), 1299), Some("text".to_string()));
    assert_eq!(read().on_entry(stored(1300), 1300), None);
    assert_eq!(read().on_entry(None, 0), None);
}

#[test]
fn the_cache_keeps_values_in_their_own_table() {
    let cache = HeedCache {};
    let write = cache.put_values("values:id:One", "text", 5, 10);
    assert!(write.table == Table::Values && write.key == "values:id:One");
    assert_eq!(write.entry.body, "text");
    assert_eq!(write.entry.expires_at_unix_seconds, 15);
    let read = cache.get_values("values:id:One");
    assert!(read.table == Table::Values && read.key == "values:id:One");
    assert_eq!(Table::Metadata.name(), "metadata");
    assert_eq!(Table::Values.name(), "values");
    assert!(table_of(Resource::Metadata) == Table::Metadata);
    assert!(table_of(Resource::Values) == Table::Values);
}

/// Fetches the rows of one sheet at `now`, from an upstream that answers with `status` and
/// `body`; counts the requests.
fn fetch_at(
    stored: &mut Option<CacheEntry>,
    requests: &mut u32,
    now: u64,
    status: u16,
    body: &str,
) -> Result<Vec<Json>, GoogleError> {
    let cache = HeedCache {};
    let work = client().fetch_rows("id", "One");
    let found = stored.as_ref().map(|entry| CacheEntry {
        body: entry.body.clone(),
        expires_at_unix_seconds: entry.expires_at_unix_seconds,
    });
    let read = cache.get_values(&work.target.cache_key).on_entry(found, now);
    let mut fetch = work.fetch.on_looked_up(Ok(read));
    loop {
        fetch = match fetch {
            ClientFetch::DecodingCached { text } => {
                let decoded = Ok(payload(&text));
                ClientFetch::DecodingCached { text }.on_cached_decoded(Resource::Values, decoded)
            }
            ClientFetch::Sending => {
                *requests += 1;
                fetch.on_sent(Ok((status, body.as_bytes().to_vec())))
            }
            ClientFetch::Decoding { status, body } => {
                let decoded = match serde_json::from_slice::<Value>(&body) {
                    Ok(value) => Ok(payload(&value.to_string())),
                    Err(error) => Err(error.to_string()),
                };
                ClientFetch::Decoding { status, body }.on_decoded(Resource::Values, decoded)
            }
            ClientFetch::Encoding { payload } => {
                ClientFetch::Encoding { payload }.on_encoded(Ok(body.to_string()))
            }
            ClientFetch::Storing { payload, text, ttl_seconds } => {
                let write = cache.put_values("values:id:One", &text, ttl_seconds, now);
                *stored = Some(write.entry);
                ClientFetch::Storing { payload, text, ttl_seconds }.on_stored(Ok(()))
            }
            ClientFetch::Finished { outcome } => return rows_of(outcome),
            ClientFetch::Lookup => panic!("a second look into the cache"),
        };
    }
}

#[test]
fn fetched_rows_are_served_from_the_cache() {
    let mut stored = None;
    let mut requests = 0;
    let first = fetch_at(&mut stored, &mut requests, 1000, 200, r#"[["a"],["b"]]"#).unwrap();
    assert_eq!(values(first), parse(r#"[{"a":"b"}]"#));
    let again = fetch_at(&mut stored, &mut requests, 1299, 200, r#"[["a"],["c"]]"#).unwrap();
    assert_eq!(values(again), parse(r#"[{"a":"b"}]"#));
    assert_eq!(requests, 1);
    let later = fetch_at(&mut stored, &mut requests, 1300, 200, r#"[["a"],["c"]]"#).unwrap();
    assert_eq!(values(later), parse(r#"[{"a":"c"}]"#));
    assert_eq!(requests, 2);
}

#[test]
fn refused_responses_are_fetched_again() {
    let mut stored = None;
    let mut requests = 0;
    let refused = fetch_at(&mut stored, &mut requests, 1000, 500, "[]").err().unwrap();
    assert_eq!(parts(&refused), ("Google Sheets request failed", 400));
    let broken = fetch_at(&mut stored, &mut requests, 1001, 200, "[").err().unwrap();
    assert_eq!(broken.status, 502);
    assert!(stored.is_none());
    assert!(fetch_at(&mut stored, &mut requests, 1002, 200, "[]").is_ok());
    assert_eq!(requests, 3);
}

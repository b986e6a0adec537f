use gsheet::config::{ServiceConfig, Settings};
use gsheet::error::GoogleError;
use gsheet::json::{array_of, decode, display, encode, encode_text, set_member, Json};
use gsheet::percent::{decode_title, encode_title};
use gsheet::reply::{error_response, json_response};
use gsheet::route::decode_sheet_name;
use gsheet::rows::{shape_row, values_to_rows};
use gsheet::text::{chars_of, decimal, parse_number, path_segments, replace_plus};
use serde_json::Value;

fn parse(text: &str) -> Value {
    serde_json::from_str(text).expect("JSON")
}

fn row(text: &str) -> Vec<Json> {
    parse(text)
        .as_array()
        .expect("a row")
        .iter()
        .map(|cell| Json::from_value(cell.clone()))
        .collect()
}

fn settings(value: Option<&str>) -> Settings {
    let setting = || value.map(|value| value.to_string());
    Settings {
        port: setting(),
        cache_dir: setting(),
        sheet_max_age_secs: setting(),
        document_max_age_secs: setting(),
        error_max_age_secs: setting(),
        google_cache_ttl_secs: setting(),
        google_cache_ttl_max_secs: setting(),
        google_rate_limit: setting(),
        google_rate_window_secs: setting(),
        google_max_queued_requests: setting(),
    }
}

fn numbers(config: &ServiceConfig) -> Vec<u64> {
    vec![
        config.port as u64,
        config.sheet_max_age_secs,
        config.document_max_age_secs,
        config.error_max_age_secs,
        config.google_cache_ttl_secs,
        config.google_cache_ttl_max_secs,
        config.google_rate_limit as u64,
        config.google_rate_window_secs,
        config.google_max_queued_requests as u64,
    ]
}

#[test]
fn unset_settings_keep_their_defaults() {
    let config = ServiceConfig::from_settings(settings(None));
    assert_eq!(numbers(&config), vec![8080, 300, 3600, 30, 300, 1200, 300, 60, 64]);
    assert_eq!(config.cache_dir, "./data/heed");
}

#[test]
fn unreadable_settings_keep_their_defaults() {
    for value in ["", "x", "-1", "1.5", " 7", "99999999999999999999"] {
        let config = ServiceConfig::from_settings(settings(Some(value)));
        assert_eq!(numbers(&config), vec![8080, 300, 3600, 30, 300, 1200, 300, 60, 64]);
        assert_eq!(config.cache_dir, value);
    }
    let config = ServiceConfig::from_settings(settings(Some("65536")));
    assert_eq!(numbers(&config), vec![8080, 65536, 65536, 65536, 65536, 65536, 65536, 65536, 65536]);
}

#[test]
fn settings_are_read() {
    let config = ServiceConfig::from_settings(settings(Some("0042")));
    assert_eq!(numbers(&config), vec![42; 9]);
    assert_eq!(config.cache_dir, "0042");
}

#[test]
fn numbers_are_parsed_up_to_their_maximum() {
    assert_eq!(parse_number("65535", 65535), Some(65535));
    assert_eq!(parse_number("65536", 65535), None);
    assert_eq!(parse_number("+7", 10), Some(7));
    assert_eq!(parse_number("+", 10), None);
    assert_eq!(parse_number("", 10), None);
    assert_eq!(parse_number("1 ", 10), None);
    assert_eq!(parse_number("18446744073709551615", u64::MAX), Some(u64::MAX));
    assert_eq!(parse_number("18446744073709551616", u64::MAX), None);
    assert_eq!(parse_number("99999x", 10), None);
    for number in [0, 9, 10, 305, u64::MAX] {
        assert_eq!(decimal(number), number.to_string());
        assert_eq!(parse_number(&decimal(number), u64::MAX), Some(number));
    }
}

#[test]
fn paths_are_split_behind_their_slashes() {
    assert_eq!(path_segments("//a//b/"), vec!["a", "", "b"]);
    assert_eq!(path_segments("///"), vec![""]);
    assert_eq!(path_segments("é/x"), vec!["é", "x"]);
    assert_eq!(replace_plus("a+b++"), "a b  ");
    assert_eq!(chars_of("aé"), vec!['a', 'é']);
}

#[test]
fn titles_are_encoded_and_decoded() {
    assert_eq!(encode_title("A-z_0.9~"), "A-z_0.9~");
    assert_eq!(encode_title("a b/ü+%"), "a%20b%2F%C3%BC%2B%25");
    assert_eq!(decode_title("a%20b%2f%C3%BC%2B%25"), Some("a b/ü+%".to_string()));
    assert_eq!(decode_title("100%"), Some("100%".to_string()));
    assert_eq!(decode_title("%zz%4"), Some("%zz%4".to_string()));
    assert_eq!(decode_title("%4%41"), Some("%4A".to_string()));
    assert_eq!(decode_title("%c3"), None);
    for title in ["", "Sheet One", "50% + 1", "日本/語"] {
        assert_eq!(decode_title(&encode_title(title)), Some(title.to_string()));
        assert_eq!(decode_sheet_name(&encode_title(title)).unwrap(), title);
    }
    assert_eq!(decode_sheet_name("a+b%2B").unwrap(), "a b+");
    let error = decode_sheet_name("%80").unwrap_err();
    assert_eq!((error.message.as_str(), error.status), ("Invalid sheet path encoding", 400));
}

#[test]
fn rows_are_keyed_by_the_header_row() {
    let rows = values_to_rows(vec![
        row(r#"["name","age","name",7]"#),
        row(r#"["alice",30]"#),
        row(r#"["bob",31,"robert","x",{"k":[1]}]"#),
        row("[]"),
    ]);
    let rows: Vec<Value> = rows.into_iter().map(|row| row.into_value()).collect();
    assert_eq!(
        Value::Array(rows),
        parse(
            r#"[{"name":"alice","age":30},{"name":"robert","age":31,"undefined":{"k":[1]}},{}]"#
        )
    );
    assert!(values_to_rows(Vec::new()).is_empty());
    assert!(values_to_rows(vec![row(r#"["name"]"#)]).is_empty());
    let object = shape_row(&row(r#"["a"]"#), row("[null,false]"));
    assert_eq!(object.into_value(), parse(r#"{"a":null,"undefined":false}"#));
}

#[test]
fn json_is_written_and_read() {
    let mut members = serde_json::Map::new();
    set_member(&mut members, "b".to_string(), Json::Text("x".to_string()));
    set_member(&mut members, "a".to_string(), array_of(vec![Json::Null, Json::Bool(true)]));
    set_member(&mut members, "b".to_string(), Json::from_value(parse("1.5")));
    assert_eq!(encode(Json::Object(members)).unwrap(), br#"{"a":[null,true],"b":1.5}"#.to_vec());
    let decoded = decode(br#" {"z": [1, "two"]} "#).unwrap();
    assert_eq!(decoded.into_value(), parse(r#"{"z":[1,"two"]}"#));
    let refusal = decode(b"[1,").err().unwrap();
    assert_eq!(refusal, "EOF while parsing a value at line 1 column 3");
    assert_eq!(display(Json::from_value(parse("[1, {\"a\": 2}]"))), r#"[1,{"a":2}]"#);
}

#[test]
fn strings_are_escaped() {
    assert_eq!(encode_text("plain é/"), "\"plain é/\"".as_bytes().to_vec());
    assert_eq!(
        encode_text("\"\\\u{8}\u{c}\n\r\t\u{1}\u{1f}\u{7f}"),
        "\"\\\"\\\\\\b\\f\\n\\r\\t\\u0001\\u001f\u{7f}\"".as_bytes().to_vec()
    );
}

#[test]
fn every_error_has_its_status() {
    let text = || "m".to_string();
    let cases = [
        (GoogleError::bad_request(text()), 400, "m"),
        (GoogleError::upstream(text()), 502, "m"),
        (GoogleError::request_build(text()), 500, "m"),
        (GoogleError::body_read(text()), 502, "m"),
        (GoogleError::json_decode(text()), 502, "m"),
        (GoogleError::json_encode(text()), 500, "m"),
        (GoogleError::cache("m"), 500, "Cache error: m"),
        (GoogleError::too_many_requests(text()), 429, "m"),
    ];
    for (error, status, message) in cases {
        assert_eq!((error.status, error.message.as_str()), (status, message));
        let reply = error_response(&error, 7);
        assert_eq!(reply.status, status);
        assert_eq!(reply.headers[3].1, "public, max-age=7, s-maxage=7");
        let body: Value = serde_json::from_slice(&reply.body).expect("JSON");
        assert_eq!(body["error"].as_str(), Some(message));
    }
    let reply = json_response(201, None, vec![1, 2]);
    assert_eq!((reply.status, reply.headers.len(), reply.body), (201, 3, vec![1, 2]));
}

#[test]
fn a_float_may_change_when_it_is_read_back() {
    let first = decode(b"[0.90494076670778435]").unwrap();
    let text = encode(first).unwrap();
    assert_eq!(text, b"[0.9049407667077843]".to_vec());
    let again = decode(&text).unwrap();
    assert_eq!(encode(again).unwrap(), b"[0.9049407667077844]".to_vec());
    let plain = br#"[["a",1,-2,true,null],[]]"#;
    assert_eq!(encode(decode(plain).unwrap()).unwrap(), plain.to_vec());
}

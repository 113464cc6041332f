use api2cli::headers::{collect_fields, collect_headers, visible_text, Headers};
use axum::http::{HeaderMap, HeaderName, HeaderValue};

fn object(headers: &Headers) -> serde_json::Value {
    serde_json::Value::Object(headers.to_object())
}

fn text(headers: &Headers) -> String {
    object(headers).to_string()
}

#[test]
fn insert_replaces_and_keeps_the_others() {
    let mut headers = Headers::new();
    assert_eq!(text(&headers), "{}");
    headers.insert("a".to_string(), "1".to_string());
    headers.insert("b".to_string(), "2".to_string());
    headers.insert("a".to_string(), "3".to_string());
    assert_eq!(text(&headers), "{\"a\":\"3\",\"b\":\"2\"}");
}

#[test]
fn names_are_told_apart_by_case() {
    let mut headers = Headers::new();
    headers.insert("a".to_string(), "1".to_string());
    headers.insert("A".to_string(), "2".to_string());
    assert_eq!(text(&headers), "{\"A\":\"2\",\"a\":\"1\"}");
}

#[test]
fn visible_text_takes_visible_ascii_and_tabs() {
    assert_eq!(visible_text(b"a b\t~").as_deref(), Some("a b\t~"));
    assert_eq!(visible_text(b"").as_deref(), Some(""));
    assert!(visible_text(b"a\x7f").is_none());
    assert!(visible_text(b"a\n").is_none());
    assert!(visible_text("\u{e9}".as_bytes()).is_none());
}

#[test]
fn visible_text_agrees_with_header_values() {
    for b in 0..=255u8 {
        if let Ok(value) = HeaderValue::from_bytes(&[b'x', b]) {
            let expected = value.to_str().ok().map(|s| s.to_string());
            assert_eq!(visible_text(&[b'x', b]), expected, "byte {b}");
        }
    }
}

#[test]
fn headers_of_a_request_are_collected() {
    let mut map = HeaderMap::new();
    map.insert("Content-Type", HeaderValue::from_static("text/plain"));
    map.insert("x-one", HeaderValue::from_static("1"));
    assert_eq!(
        text(&collect_headers(&map)),
        "{\"content-type\":\"text/plain\",\"x-one\":\"1\"}"
    );
    assert_eq!(text(&collect_headers(&HeaderMap::new())), "{}");
}

#[test]
fn last_field_of_a_name_counts() {
    let mut map = HeaderMap::new();
    let name = HeaderName::from_static("x-multi");
    map.append(name.clone(), HeaderValue::from_static("first"));
    map.append("x-other", HeaderValue::from_static("stays"));
    map.append(name, HeaderValue::from_static("second"));
    assert_eq!(
        text(&collect_headers(&map)),
        "{\"x-multi\":\"second\",\"x-other\":\"stays\"}"
    );
}

#[test]
fn unreadable_fields_are_dropped() {
    let mut map = HeaderMap::new();
    map.append("x-a", HeaderValue::from_static("kept"));
    map.append("x-a", HeaderValue::from_bytes(b"caf\xc3\xa9").unwrap());
    map.append("x-b", HeaderValue::from_bytes(&[0xff]).unwrap());
    assert_eq!(text(&collect_headers(&map)), "{\"x-a\":\"kept\"}");
}

#[test]
fn listed_fields_are_collected() {
    let fields = vec![
        ("a".to_string(), b"1".to_vec()),
        ("b".to_string(), vec![0x00]),
        ("a".to_string(), b"2".to_vec()),
    ];
    assert_eq!(text(&collect_fields(&fields)), "{\"a\":\"2\"}");
}

#[test]
fn header_names_are_collected_in_lower_case() {
    let mut map = HeaderMap::new();
    map.insert(
        HeaderName::from_bytes(b"X-Request-ID").unwrap(),
        HeaderValue::from_static("Seven"),
    );
    assert_eq!(text(&collect_headers(&map)), "{\"x-request-id\":\"Seven\"}");
}

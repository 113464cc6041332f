use api2cli::headers::Headers;
use api2cli::passthrough::Passthrough;
use api2cli::payload::{build_payload, envelope, read_payload, text_line};

#[test]
fn test_body_passthrough_is_raw_body_plus_newline() {
    let result = build_payload(
        &Passthrough::Body,
        "POST",
        "/x",
        Headers::new(),
        b"hello".to_vec(),
    );
    assert_eq!(result, b"hello\n");
}

#[test]
fn test_body_passthrough_empty_body_is_just_newline() {
    let result = build_payload(&Passthrough::Body, "GET", "/", Headers::new(), vec![]);
    assert_eq!(result, b"\n");
}

#[test]
fn test_body_passthrough_does_not_include_method_or_path() {
    let result = build_payload(
        &Passthrough::Body,
        "DELETE",
        "/should/not/appear",
        Headers::new(),
        b"data".to_vec(),
    );
    let text = String::from_utf8(result).unwrap();
    assert!(!text.contains("DELETE"));
    assert!(!text.contains("/should/not/appear"));
}

#[test]
fn test_full_passthrough_is_valid_json_with_newline() {
    let result = build_payload(
        &Passthrough::Full,
        "POST",
        "/api",
        Headers::new(),
        b"body".to_vec(),
    );
    assert_eq!(*result.last().unwrap(), b'\n');
    let v: serde_json::Value = serde_json::from_slice(&result[..result.len() - 1]).unwrap();
    assert_eq!(v["method"], "POST");
    assert_eq!(v["path"], "/api");
    assert_eq!(v["body"], "body");
}

#[test]
fn test_full_passthrough_includes_headers() {
    let mut headers = Headers::new();
    headers.insert("content-type".to_string(), "application/json".to_string());
    let result = build_payload(&Passthrough::Full, "PUT", "/h", headers, b"{}".to_vec());
    let v: serde_json::Value = serde_json::from_slice(&result[..result.len() - 1]).unwrap();
    assert_eq!(v["headers"]["content-type"], "application/json");
}

#[test]
fn test_full_passthrough_empty_body_field_is_empty_string() {
    let result = build_payload(&Passthrough::Full, "GET", "/ping", Headers::new(), vec![]);
    let v: serde_json::Value = serde_json::from_slice(&result[..result.len() - 1]).unwrap();
    assert_eq!(v["body"], "");
}

#[test]
fn full_payload_is_exact() {
    let mut headers = Headers::new();
    headers.insert("x-b".to_string(), "2".to_string());
    headers.insert("x-a".to_string(), "1".to_string());
    let result = build_payload(&Passthrough::Full, "POST", "/p?q=1", headers, b"hi".to_vec());
    assert_eq!(
        String::from_utf8(result).unwrap(),
        "{\"body\":\"hi\",\"headers\":{\"x-a\":\"1\",\"x-b\":\"2\"},\"method\":\"POST\",\"path\":\"/p?q=1\"}\n"
    );
}

#[test]
fn full_payload_is_one_line_whatever_the_body_is() {
    let body: Vec<u8> = b"a\nb\r\n\t\"\\\x00\x1f end".to_vec();
    let result = build_payload(&Passthrough::Full, "POST", "/\n", Headers::new(), body.clone());
    let newlines = result.iter().filter(|b| **b == b'\n').count();
    assert_eq!(newlines, 1);
    assert!(result[..result.len() - 1].iter().all(|b| *b >= 0x20));
    let v = read_payload(&result).unwrap();
    assert_eq!(v["body"].as_str().unwrap().as_bytes(), &body[..]);
    assert_eq!(v["path"], "/\n");
}

#[test]
fn full_payload_keeps_a_body_outside_ascii() {
    let body = "h\u{e9}llo \u{1f600} \u{4e16}";
    let result = build_payload(
        &Passthrough::Full,
        "POST",
        "/",
        Headers::new(),
        body.as_bytes().to_vec(),
    );
    let v = read_payload(&result).unwrap();
    assert_eq!(v["body"], body);
}

#[test]
fn full_payload_replaces_what_is_not_utf8() {
    let result = build_payload(
        &Passthrough::Full,
        "POST",
        "/",
        Headers::new(),
        vec![b'a', 0xff, b'b'],
    );
    let v = read_payload(&result).unwrap();
    assert_eq!(v["body"], "a\u{fffd}b");
}

#[test]
fn body_payload_keeps_what_is_not_utf8() {
    let result = build_payload(
        &Passthrough::Body,
        "POST",
        "/",
        Headers::new(),
        vec![0xff, 0x00, b'\n'],
    );
    assert_eq!(result, vec![0xff, 0x00, b'\n', b'\n']);
}

#[test]
fn envelope_has_exactly_four_members() {
    let v = envelope("GET", "/", &Headers::new(), "text".to_string());
    let object = v.as_object().unwrap();
    assert_eq!(object.len(), 4);
    assert_eq!(v["method"], "GET");
    assert_eq!(v["path"], "/");
    assert_eq!(v["body"], "text");
    assert!(v["headers"].as_object().unwrap().is_empty());
}

#[test]
fn different_requests_have_different_envelopes() {
    let a = build_payload(&Passthrough::Full, "GET", "/a", Headers::new(), vec![]);
    let b = build_payload(&Passthrough::Full, "GET", "/b", Headers::new(), vec![]);
    let c = build_payload(&Passthrough::Full, "GET", "/a", Headers::new(), b"/a".to_vec());
    assert_ne!(a, b);
    assert_ne!(a, c);
    assert_ne!(b, c);
}

#[test]
fn text_line_ends_with_a_newline() {
    assert_eq!(text_line("\u{e9}"), vec![0xc3, 0xa9, b'\n']);
    assert_eq!(text_line(""), b"\n");
}

#[test]
fn read_payload_wants_a_line_of_json() {
    assert!(read_payload(b"").is_none());
    assert!(read_payload(b"{}").is_none());
    assert!(read_payload(b"not json\n").is_none());
    assert!(read_payload(b"{}\n").unwrap().is_object());
    assert_eq!(read_payload(b"\"a\"\n").unwrap(), "a");
}

#[test]
fn any_header_name_is_read_back() {
    for name in [
        "$serde_json::private::RawValue",
        "$serde_json::private::Number",
        "",
        "\u{e9}\n\"",
    ] {
        let mut headers = Headers::new();
        headers.insert(name.to_string(), "1".to_string());
        let line = build_payload(&Passthrough::Full, "GET", "/", headers, vec![]);
        let v = read_payload(&line).unwrap();
        assert_eq!(v["headers"][name], "1", "{name:?}");
        assert_eq!(v["headers"].as_object().unwrap().len(), 1, "{name:?}");
    }
}

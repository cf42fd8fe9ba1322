//! Tests of the record extractor's fixed derivation rules.

use topngx::extract::{bytes_sent, extract_record, request_path, status_class, FieldValue};

#[test]
fn status_class_derivation() {
    assert_eq!(status_class("404"), 4);
    assert_eq!(status_class(""), 0);
    assert_eq!(status_class("abc"), 0);
    assert_eq!(status_class("204"), 2);
    assert_eq!(status_class("200"), 2);
    assert_eq!(status_class("599"), 5);
    assert_eq!(status_class("600"), 0);
    assert_eq!(status_class("65535"), 0);
    assert_eq!(status_class("99999"), 0);
    assert_eq!(status_class("+301"), 3);
    assert_eq!(status_class(" 200"), 0);
}

#[test]
fn bytes_sent_derivation() {
    assert_eq!(bytes_sent("4223"), 4223);
    assert_eq!(bytes_sent(""), 0);
    assert_eq!(bytes_sent("12x"), 0);
    assert_eq!(bytes_sent("4294967295"), 4294967295);
    assert_eq!(bytes_sent("4294967296"), 0);
}

#[test]
fn request_path_prefers_uri_capture_verbatim() {
    let uri = Some(String::from("/index.html"));
    let request = Some(String::from("GET /index.html HTTP/1.1"));
    assert_eq!(request_path(&uri, &request), "/index.html");
    assert_eq!(request_path(&None, &request), "GET /index.html HTTP/1.1");
    assert_eq!(request_path(&None, &None), "");
}

#[test]
fn record_follows_field_order_with_placeholders() {
    let fields = vec![
        String::from("status_type"),
        String::from("bytes_sent"),
        String::from("request_path"),
        String::from("remote_addr"),
    ];
    let names = vec![
        String::from("remote_addr"),
        String::from("request"),
        String::from("status"),
        String::from("body_bytes_sent"),
    ];
    let caps = vec![
        Some(String::from("66.249.65.3")),
        Some(String::from("GET / HTTP/1.1")),
        Some(String::from("301")),
        Some(String::from("17")),
    ];
    let record = extract_record(&fields, &names, &caps);
    assert_eq!(record.len(), 4);
    assert_eq!(record[0].0, ":status_type");
    assert!(matches!(record[0].1, FieldValue::Int(3)));
    assert_eq!(record[1].0, ":bytes_sent");
    assert!(matches!(record[1].1, FieldValue::Int(17)));
    assert_eq!(record[2].0, ":request_path");
    match &record[2].1 {
        FieldValue::Text(t) => assert_eq!(t, "GET / HTTP/1.1"),
        _ => panic!("request_path must be text"),
    }
    assert_eq!(record[3].0, ":remote_addr");
    match &record[3].1 {
        FieldValue::Text(t) => assert_eq!(t, "66.249.65.3"),
        _ => panic!("raw fields are text"),
    }
}

#[test]
fn missing_captures_become_empty_or_zero() {
    let fields = vec![String::from("status_type"), String::from("other")];
    let names = vec![String::from("x")];
    let caps = vec![None];
    let record = extract_record(&fields, &names, &caps);
    assert!(matches!(record[0].1, FieldValue::Int(0)));
    match &record[1].1 {
        FieldValue::Text(t) => assert_eq!(t, ""),
        _ => panic!("missing raw capture is empty text"),
    }
}

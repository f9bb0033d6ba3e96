use native_bridge::bridge::{plan_request, respond, transport_failure, Method, TIMEOUT_SECS};
use native_bridge::envelope::Envelope;
use native_bridge::error::{BridgeError, ErrorKind};
use native_bridge::headers::{collect_headers, parse_headers};

fn s(x: &str) -> String {
    x.to_string()
}

#[test]
fn method_post_is_exact() {
    assert_eq!(Method::from_name("POST"), Method::Post);
    assert_eq!(Method::from_name("post"), Method::Get);
    assert_eq!(Method::from_name("PUT"), Method::Get);
    assert_eq!(Method::from_name(""), Method::Get);
    assert_eq!(Method::from_name("GET"), Method::Get);
}

#[test]
fn post_plan_carries_body_exactly() {
    let plan = plan_request(s("http://example.test/x"), s("a=1&b=\u{e9}"), "{}", "POST").unwrap();
    assert_eq!(plan.method, Method::Post);
    assert_eq!(plan.body, Some(s("a=1&b=\u{e9}")));
    assert_eq!(plan.url, "http://example.test/x");
    assert_eq!(plan.timeout_secs, 120);
    assert_eq!(TIMEOUT_SECS, 120);
}

#[test]
fn get_and_other_methods_send_no_body() {
    for m in ["GET", "post", "DELETE", ""] {
        let plan = plan_request(s("http://example.test/"), s("ignored"), "{}", m).unwrap();
        assert_eq!(plan.method, Method::Get);
        assert_eq!(plan.body, None);
    }
}

#[test]
fn header_json_not_json_is_parse_error() {
    let e = plan_request(s("http://example.test/"), s(""), "not json", "GET").unwrap_err();
    assert_eq!(e.kind, ErrorKind::InvalidJson);
    assert!(e.message.contains("line 1"));
    let text = Envelope::failure(e).render();
    let v: serde_json::Value = serde_json::from_str(&text).unwrap();
    assert_eq!(v["success"], serde_json::Value::Bool(false));
    assert!(v["body"].as_str().unwrap().contains("expected"));
}

#[test]
fn header_json_array_is_invalid_header_json() {
    let e = plan_request(s("http://example.test/"), s(""), "[]", "GET").unwrap_err();
    assert_eq!(e.kind, ErrorKind::NotAnObject);
    assert_eq!(e.message(), "Invalid header JSON");
    assert_eq!(Envelope::failure(e).render(), r#"{"success":false,"body":"Invalid header JSON"}"#);
}

#[test]
fn header_json_string_is_not_an_object() {
    let e = parse_headers("\"x\"").unwrap_err();
    assert_eq!(e.kind, ErrorKind::NotAnObject);
}

#[test]
fn headers_parse_with_non_strings_as_empty() {
    let hs = parse_headers(r#"{"X-Token":"abc","X-Num":5,"Accept":"*/*"}"#).unwrap();
    assert_eq!(hs.len(), 3);
    assert!(hs.contains(&(s("X-Token"), s("abc"))));
    assert!(hs.contains(&(s("X-Num"), s(""))));
    assert!(hs.contains(&(s("Accept"), s("*/*"))));
}

#[test]
fn empty_header_object_gives_no_headers() {
    assert_eq!(parse_headers("{}").unwrap(), Vec::<(String, String)>::new());
}

#[test]
fn invalid_header_name_is_rejected() {
    let e = parse_headers(r#"{"bad name":"v"}"#).unwrap_err();
    assert_eq!(e.kind, ErrorKind::InvalidHeaderName);
    assert_eq!(e.message, "invalid HTTP header name");
    let e = parse_headers(r#"{"":"v"}"#).unwrap_err();
    assert_eq!(e.kind, ErrorKind::InvalidHeaderName);
}

#[test]
fn invalid_header_value_is_rejected() {
    let e = parse_headers(r#"{"x-a":"line\nbreak"}"#).unwrap_err();
    assert_eq!(e.kind, ErrorKind::InvalidHeaderValue);
    assert_eq!(e.message, "failed to parse header value");
    let ok = parse_headers("{\"x-a\":\"tab\\there \u{e9}\"}").unwrap();
    assert_eq!(ok, vec![(s("x-a"), s("tab\there \u{e9}"))]);
}

#[test]
fn longest_header_name_is_accepted() {
    let long = "a".repeat(65535);
    let text = format!("{{\"{}\":\"v\"}}", long);
    assert_eq!(parse_headers(&text).unwrap().len(), 1);
    let too_long = "a".repeat(65536);
    let text = format!("{{\"{}\":\"v\"}}", too_long);
    assert_eq!(parse_headers(&text).unwrap_err().kind, ErrorKind::InvalidHeaderName);
}

#[test]
fn response_body_is_base64_and_round_trips() {
    let bytes = vec![0u8, 255, 10];
    let env = respond(&bytes, &vec![(s("content-type"), Some(s("application/octet-stream")))]);
    assert!(env.is_ok());
    assert_eq!(env.body(), "AP8K");
    assert_eq!(env.decoded_body(), Some(bytes));
    assert_eq!(env.headers().unwrap(), &vec![(s("content-type"), s("application/octet-stream"))]);
}

#[test]
fn empty_response_body_is_empty_text() {
    let env = respond(&Vec::new(), &Vec::new());
    assert_eq!(env.body(), "");
    assert_eq!(env.decoded_body(), Some(Vec::new()));
    assert_eq!(env.render(), r#"{"success":true,"body":"","headers":{}}"#);
}

#[test]
fn text_body_is_still_encoded() {
    let env = respond(&b"hello world~".to_vec(), &Vec::new());
    assert_eq!(env.body(), "aGVsbG8gd29ybGR+");
}

#[test]
fn repeated_response_header_keeps_last_value() {
    let raw = vec![
        (s("set-cookie"), Some(s("a=1"))),
        (s("x-b"), Some(s("2"))),
        (s("set-cookie"), Some(s("c=3"))),
    ];
    let hs = collect_headers(&raw).unwrap();
    assert_eq!(hs, vec![(s("set-cookie"), s("c=3")), (s("x-b"), s("2"))]);
}

#[test]
fn non_text_response_header_is_encoding_error() {
    let raw = vec![(s("x-ok"), Some(s("fine"))), (s("x-bin"), None)];
    let e = collect_headers(&raw).unwrap_err();
    assert_eq!(e.kind, ErrorKind::Encoding);
    assert_eq!(e.message, "response header value is not text: x-bin");
    let env = respond(&vec![1u8], &raw);
    assert!(!env.is_ok());
    assert_eq!(env.headers(), None);
    assert_eq!(env.decoded_body(), None);
}

#[test]
fn rendered_headers_round_trip_through_json() {
    let raw = vec![
        (s("content-type"), Some(s("text/plain; charset=\"utf-8\""))),
        (s("x-path"), Some(s("C:\\dir"))),
    ];
    let env = respond(&b"hi".to_vec(), &raw);
    let text = env.render();
    let v: serde_json::Value = serde_json::from_str(&text).unwrap();
    assert_eq!(v["success"], serde_json::Value::Bool(true));
    assert_eq!(v["body"], serde_json::Value::String(s("aGk=")));
    let obj = v["headers"].as_object().unwrap();
    assert_eq!(obj.len(), 2);
    assert_eq!(obj["content-type"], serde_json::Value::String(s("text/plain; charset=\"utf-8\"")));
    assert_eq!(obj["x-path"], serde_json::Value::String(s("C:\\dir")));
}

#[test]
fn transport_failure_keeps_message() {
    let env = transport_failure(s("error sending request: \"dns\" failed"));
    assert!(!env.is_ok());
    assert_eq!(env.body(), "error sending request: \"dns\" failed");
    assert_eq!(env.render(), r#"{"success":false,"body":"error sending request: \"dns\" failed"}"#);
}

#[test]
fn bridge_error_carries_kind_and_message() {
    let e = BridgeError::transport(s("operation timed out"));
    assert_eq!(e.kind, ErrorKind::Transport);
    assert_eq!(e.message(), "operation timed out");
    let e = BridgeError::new(ErrorKind::Encoding, s("m"));
    assert_eq!(e.kind, ErrorKind::Encoding);
}

use http_bridge::error::ForwardError;
use http_bridge::forward::assemble_response;
use http_bridge::forward::conclude;
use http_bridge::forward::prepare;
use http_bridge::forward::ProxyRequest;
use http_bridge::forward::ProxyResponse;
use http_bridge::forward::TransportEvent;
use http_bridge::headers::check_header_name;
use http_bridge::headers::check_header_value;
use http_bridge::headers::filter_valid_headers;
use http_bridge::method::parse_method;
use http_bridge::method::Method;

fn request(method: &str, headers: Option<&str>, body: Option<&str>) -> ProxyRequest {
    ProxyRequest {
        url: "http://example.test/".to_string(),
        method: method.to_string(),
        headers: headers.map(|h| h.to_string()),
        body: body.map(|b| b.to_string()),
    }
}

#[test]
fn accepts_every_listed_method_in_any_case() {
    let cases = [
        ("GET", Method::Get),
        ("get", Method::Get),
        ("GeT", Method::Get),
        ("POST", Method::Post),
        ("post", Method::Post),
        ("PUT", Method::Put),
        ("puT", Method::Put),
        ("DELETE", Method::Delete),
        ("delete", Method::Delete),
        ("PATCH", Method::Patch),
        ("pAtCh", Method::Patch),
        ("HEAD", Method::Head),
        ("head", Method::Head),
    ];
    for (name, expected) in cases {
        assert_eq!(parse_method(name), Some(expected));
        let plan = prepare(request(name, None, None)).unwrap();
        assert_eq!(plan.method, expected);
    }
}

#[test]
fn rejects_every_other_method() {
    for name in ["TRACE", "foo", "", "GETT", "CONNECT", "OPTIONS", "G E T"] {
        assert_eq!(parse_method(name), None);
        let err = prepare(request(name, None, None)).unwrap_err();
        assert!(matches!(err, ForwardError::UnsupportedMethod(_)));
    }
    let err = prepare(request("TRACE", None, None)).unwrap_err();
    assert_eq!(err.message(), "Unsupported HTTP method: TRACE");
}

#[test]
fn method_is_checked_before_headers() {
    let err = prepare(request("TRACE", Some("{not json"), None)).unwrap_err();
    assert!(matches!(err, ForwardError::UnsupportedMethod(_)));
}

#[test]
fn well_formed_header_kept_malformed_dropped() {
    let plan = prepare(
        request("GET", Some("{\"X-Test\": \"1\", \"Bad Name\\n\": \"x\"}"), None),
    )
    .unwrap();
    assert_eq!(plan.headers, vec![("X-Test".to_string(), "1".to_string())]);
}

#[test]
fn filter_drops_exactly_the_invalid_pairs() {
    let pairs = vec![
        ("X-Test".to_string(), "1".to_string()),
        ("Bad Name\n".to_string(), "x".to_string()),
        ("".to_string(), "empty-name".to_string()),
        ("ok".to_string(), "tab\tis fine".to_string()),
        ("bad-value".to_string(), "no\nnewline".to_string()),
    ];
    let kept = filter_valid_headers(pairs);
    assert_eq!(
        kept,
        vec![
            ("X-Test".to_string(), "1".to_string()),
            ("ok".to_string(), "tab\tis fine".to_string()),
        ]
    );
}

#[test]
fn header_name_rules() {
    assert!(check_header_name("x-test"));
    assert!(check_header_name("X-Test"));
    assert!(check_header_name("x_0.z~"));
    assert!(!check_header_name(""));
    assert!(!check_header_name("bad name"));
    assert!(!check_header_name("bad\nname"));
    assert!(!check_header_name("acc\u{e9}nt"));
}

#[test]
fn header_value_rules() {
    assert!(check_header_value(""));
    assert!(check_header_value("plain value"));
    assert!(check_header_value("tab\tinside"));
    assert!(check_header_value("caf\u{e9}"));
    assert!(!check_header_value("new\nline"));
    assert!(!check_header_value("del\u{7f}"));
}

#[test]
fn malformed_header_payload_is_an_error() {
    let err = prepare(request("GET", Some("{not json"), None)).unwrap_err();
    assert!(matches!(err, ForwardError::HeaderParse(_)));
    assert!(err.message().starts_with("Failed to parse headers: "));
}

#[test]
fn body_rides_along_whatever_the_method() {
    let plan = prepare(request("GET", None, Some("payload"))).unwrap();
    assert_eq!(plan.body, Some("payload".to_string()));
    let plan = prepare(request("HEAD", None, Some("payload"))).unwrap();
    assert_eq!(plan.body, Some("payload".to_string()));
    let plan = prepare(request("POST", None, None)).unwrap();
    assert_eq!(plan.body, None);
}

#[test]
fn round_trip_preserves_status_and_body() {
    let out = conclude(TransportEvent::Response {
        status: 200,
        headers: vec![],
        body: Ok("ok".to_string()),
    })
    .unwrap();
    assert_eq!(out, "{\"status\":200,\"body\":\"ok\",\"headers\":{}}");
    let parsed: serde_json::Value = serde_json::from_str(&out).unwrap();
    assert_eq!(parsed.get("status").unwrap().as_u64(), Some(200));
    assert_eq!(parsed.get("body").unwrap().as_str(), Some("ok"));
}

#[test]
fn unreadable_response_header_is_omitted_others_kept() {
    let resp = assemble_response(
        200,
        &vec![
            ("content-type".to_string(), Some("text/plain".to_string())),
            ("x-binary".to_string(), None),
            ("x-ok".to_string(), Some("yes".to_string())),
        ],
        "body".to_string(),
    );
    let mut names: Vec<&str> = resp.headers.iter().map(|p| p.0.as_str()).collect();
    names.sort();
    assert_eq!(names, vec!["content-type", "x-ok"]);
    for (k, v) in &resp.headers {
        match k.as_str() {
            "content-type" => assert_eq!(v, "text/plain"),
            "x-ok" => assert_eq!(v, "yes"),
            other => panic!("unexpected header {}", other),
        }
    }
}

#[test]
fn last_readable_value_under_a_name_wins() {
    let resp = assemble_response(
        200,
        &vec![
            ("dup".to_string(), Some("first".to_string())),
            ("dup".to_string(), Some("second".to_string())),
            ("dup".to_string(), None),
        ],
        "".to_string(),
    );
    assert_eq!(resp.headers, vec![("dup".to_string(), "second".to_string())]);
}

#[test]
fn transport_failure_is_reported() {
    let err = conclude(TransportEvent::Failed("connection refused".to_string())).unwrap_err();
    assert!(matches!(err, ForwardError::RequestFailed(_)));
    assert_eq!(err.message(), "Request failed: connection refused");
}

#[test]
fn unreadable_body_is_reported() {
    let err = conclude(TransportEvent::Response {
        status: 200,
        headers: vec![],
        body: Err("invalid utf-8 sequence".to_string()),
    })
    .unwrap_err();
    assert!(matches!(err, ForwardError::BodyRead(_)));
    assert_eq!(err.message(), "Failed to read response body: invalid utf-8 sequence");
}

#[test]
fn encoding_escapes_like_a_json_emitter() {
    let resp = ProxyResponse {
        status: 201,
        body: "a\"b\\c\nd\u{1}e".to_string(),
        headers: vec![("x".to_string(), "y z".to_string())],
    };
    assert_eq!(
        resp.encode(),
        "{\"status\":201,\"body\":\"a\\\"b\\\\c\\nd\\u0001e\",\"headers\":{\"x\":\"y z\"}}"
    );
    let parsed: serde_json::Value = serde_json::from_str(&resp.encode()).unwrap();
    assert_eq!(parsed.get("body").unwrap().as_str(), Some("a\"b\\c\nd\u{1}e"));
    assert_eq!(
        parsed.get("headers").unwrap().get("x").unwrap().as_str(),
        Some("y z")
    );
}

#[test]
fn parsed_header_map_reaches_the_plan() {
    let plan = prepare(request("PUT", Some("{\"a\":\"1\",\"b\":\"2\"}"), None)).unwrap();
    let mut kept = plan.headers.clone();
    kept.sort();
    assert_eq!(
        kept,
        vec![("a".to_string(), "1".to_string()), ("b".to_string(), "2".to_string())]
    );
}

#[test]
fn canonical_method_names() {
    assert_eq!(Method::Get.name(), "GET");
    assert_eq!(Method::Post.name(), "POST");
    assert_eq!(Method::Put.name(), "PUT");
    assert_eq!(Method::Delete.name(), "DELETE");
    assert_eq!(Method::Patch.name(), "PATCH");
    assert_eq!(Method::Head.name(), "HEAD");
}

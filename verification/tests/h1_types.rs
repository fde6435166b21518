use asupersync::http::h1::{default_reason, Method, Request, Response, Version};
use std::collections::HashSet;


#[test]
fn method_roundtrip() {
    for (bytes, expected) in [
        (&b"GET"[..], Method::Get),
        (b"POST", Method::Post),
        (b"DELETE", Method::Delete),
        (b"PATCH", Method::Patch),
        (b"CUSTOM", Method::Extension("CUSTOM".to_string())),
    ] {
        let parsed = Method::from_bytes(bytes).unwrap();
        assert_eq!(parsed, expected);
        let reparsed = Method::from_bytes(parsed.as_str().as_bytes()).unwrap();
        assert_eq!(reparsed, expected);
    }
}

#[test]
fn version_roundtrip() {
    assert_eq!(Version::from_bytes(b"HTTP/1.0"), Some(Version::Http10));
    assert_eq!(Version::from_bytes(b"HTTP/1.1"), Some(Version::Http11));
    assert_eq!(Version::from_bytes(b"HTTP/2"), None);
    assert_eq!(Version::Http11.as_str(), "HTTP/1.1");
}

#[test]
fn response_builder() {
    let resp =
        Response::new(200, "OK", b"hello".to_vec()).with_header("Content-Type", "text/plain");
    assert_eq!(resp.status, 200);
    assert_eq!(resp.headers.len(), 1);
    assert_eq!(resp.body, b"hello");
    assert!(resp.trailers.is_empty());
}

#[test]
fn default_reasons() {
    assert_eq!(default_reason(200), "OK");
    assert_eq!(default_reason(404), "Not Found");
    assert_eq!(default_reason(417), "Expectation Failed");
    assert_eq!(default_reason(500), "Internal Server Error");
    assert_eq!(default_reason(999), "Unknown");
}

// Pure data-type tests (wave 12 – CyanBarn)

#[test]
fn method_display_all_standard() {
    assert_eq!(Method::Get.to_string(), "GET");
    assert_eq!(Method::Head.to_string(), "HEAD");
    assert_eq!(Method::Post.to_string(), "POST");
    assert_eq!(Method::Put.to_string(), "PUT");
    assert_eq!(Method::Delete.to_string(), "DELETE");
    assert_eq!(Method::Connect.to_string(), "CONNECT");
    assert_eq!(Method::Options.to_string(), "OPTIONS");
    assert_eq!(Method::Trace.to_string(), "TRACE");
    assert_eq!(Method::Patch.to_string(), "PATCH");
}

#[test]
fn method_display_extension() {
    let ext = Method::Extension("PURGE".to_string());
    assert_eq!(ext.to_string(), "PURGE");
}

#[test]
fn method_debug_clone_eq_hash() {

    let m = Method::Get;
    let dbg = format!("{m:?}");
    assert!(dbg.contains("Get"));
    let cloned = m.clone();
    assert_eq!(m, cloned);

    let mut set = HashSet::new();
    set.insert(Method::Get);
    set.insert(Method::Post);
    set.insert(Method::Get);
    assert_eq!(set.len(), 2);
}

#[test]
fn method_from_bytes_all_standard() {
    let methods = [
        (b"GET" as &[u8], Method::Get),
        (b"HEAD", Method::Head),
        (b"POST", Method::Post),
        (b"PUT", Method::Put),
        (b"DELETE", Method::Delete),
        (b"CONNECT", Method::Connect),
        (b"OPTIONS", Method::Options),
        (b"TRACE", Method::Trace),
        (b"PATCH", Method::Patch),
    ];
    for (bytes, expected) in methods {
        assert_eq!(Method::from_bytes(bytes), Some(expected));
    }
}

#[test]
fn method_from_bytes_invalid_utf8() {
    // Invalid UTF-8 should return None (not an extension)
    assert!(Method::from_bytes(&[0xFF, 0xFE]).is_none());
}

#[test]
fn method_inequality() {
    assert_ne!(Method::Get, Method::Post);
    assert_ne!(Method::Get, Method::Extension("GET".to_string()));
}

#[test]
fn version_display() {
    assert_eq!(Version::Http10.to_string(), "HTTP/1.0");
    assert_eq!(Version::Http11.to_string(), "HTTP/1.1");
}

#[test]
fn version_debug_copy_eq_hash() {

    let v = Version::Http11;
    let dbg = format!("{v:?}");
    assert!(dbg.contains("Http11"));
    let copied = v;
    assert_eq!(v, copied);

    let mut set = HashSet::new();
    set.insert(Version::Http10);
    set.insert(Version::Http11);
    set.insert(Version::Http10);
    assert_eq!(set.len(), 2);
}

#[test]
fn request_debug_clone() {
    let req = Request {
        method: Method::Get,
        uri: "/path".to_string(),
        version: Version::Http11,
        headers: vec![("Host".to_string(), "example.com".to_string())],
        body: b"body".to_vec(),
        trailers: vec![],
        peer_addr: None,
    };
    let dbg = format!("{req:?}");
    assert!(dbg.contains("Get"));
    assert!(dbg.contains("/path"));

    let cloned = req;
    assert_eq!(cloned.method, Method::Get);
    assert_eq!(cloned.uri, "/path");
    assert_eq!(cloned.headers.len(), 1);
}

#[test]
fn request_convenience_builders_use_expected_method() {
    let get_req = Request::get("/health").build();
    assert_eq!(get_req.method, Method::Get);
    assert_eq!(get_req.uri, "/health");
    assert_eq!(get_req.version, Version::Http11);

    let post_req = Request::post("/submit").build();
    assert_eq!(post_req.method, Method::Post);
    assert_eq!(post_req.uri, "/submit");
    assert_eq!(post_req.version, Version::Http11);

    let put_req = Request::put("/resource/1").build();
    assert_eq!(put_req.method, Method::Put);

    let delete_req = Request::delete("/resource/1").build();
    assert_eq!(delete_req.method, Method::Delete);
}

#[test]
fn response_with_trailer() {
    let resp = Response::new(200, "OK", Vec::<u8>::new())
        .with_header("Transfer-Encoding", "chunked")
        .with_trailer("Checksum", "abc123");
    assert_eq!(resp.trailers.len(), 1);
    assert_eq!(resp.trailers[0].0, "Checksum");
    assert_eq!(resp.trailers[0].1, "abc123");
}

#[test]
fn response_debug_clone() {
    let resp = Response::new(404, "Not Found", b"missing".to_vec());
    let dbg = format!("{resp:?}");
    assert!(dbg.contains("404"));
    let cloned = resp;
    assert_eq!(cloned.status, 404);
    assert_eq!(cloned.reason, "Not Found");
}

#[test]
fn response_defaults_version_http11() {
    let resp = Response::new(200, "OK", Vec::<u8>::new());
    assert_eq!(resp.version, Version::Http11);
}

#[test]
fn response_builder_uses_default_reason_and_chainable_fields() {
    let resp = Response::builder(201)
        .header("Content-Type", "application/json")
        .body(br#"{"ok":true}"#.to_vec())
        .trailer("Checksum", "abc123")
        .build();

    assert_eq!(resp.version, Version::Http11);
    assert_eq!(resp.status, 201);
    assert_eq!(resp.reason, "Created");
    assert_eq!(
        resp.headers,
        vec![("Content-Type".to_string(), "application/json".to_string())]
    );
    assert_eq!(resp.body, br#"{"ok":true}"#);
    assert_eq!(
        resp.trailers,
        vec![("Checksum".to_string(), "abc123".to_string())]
    );
}

#[test]
fn response_builder_status_resets_reason_unless_overridden_afterward() {
    let resp = Response::builder(200)
        .reason("Everything Fine")
        .status(404)
        .build();
    assert_eq!(resp.status, 404);
    assert_eq!(resp.reason, "Not Found");

    let resp_with_custom_reason = Response::builder(200)
        .status(503)
        .reason("Service Busy")
        .build();
    assert_eq!(resp_with_custom_reason.status, 503);
    assert_eq!(resp_with_custom_reason.reason, "Service Busy");
}

#[test]
fn default_reason_all_known() {
    let known = [
        (100, "Continue"),
        (201, "Created"),
        (204, "No Content"),
        (301, "Moved Permanently"),
        (302, "Found"),
        (304, "Not Modified"),
        (400, "Bad Request"),
        (401, "Unauthorized"),
        (403, "Forbidden"),
        (405, "Method Not Allowed"),
        (408, "Request Timeout"),
        (411, "Length Required"),
        (413, "Payload Too Large"),
        (414, "URI Too Long"),
        (431, "Request Header Fields Too Large"),
        (501, "Not Implemented"),
        (502, "Bad Gateway"),
        (503, "Service Unavailable"),
    ];
    for (code, expected) in known {
        assert_eq!(default_reason(code), expected, "code={code}");
    }
}

#[test]
fn method_bytes_round_trip_for_every_parsed_method() {
    let inputs: [&[u8]; 6] = [b"GET", b"HEAD", b"OPTIONS", b"TRACE", b"PUT", "PRÜFEN".as_bytes()];
    for bytes in inputs {
        let parsed = Method::from_bytes(bytes).expect("valid UTF-8 parses");
        assert_eq!(parsed.as_str().as_bytes(), bytes);
        assert_eq!(Method::from_bytes(parsed.as_str().as_bytes()), Some(parsed.clone()));
    }
    assert_eq!(Method::from_bytes(&[0xFF, 0xFE]), None);
}

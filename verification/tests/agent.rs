use request_proxy::client::{
    build_headers, full_url, host_header, origin_request, poll, report_failure, report_response,
    version_from_str, ForwardError, HttpVersion, PollOutcome, POLL_BACKOFF_MS,
};
use request_proxy::headers::HeaderMap;
use request_proxy::text::{str_bytes, str_eq};
use request_proxy::types::{
    Base64Bytes, ProxiedRequest, RequestUri, WireRequest, WireUri,
};

const ID: u128 = 0x00000000000040008000000000000001;
const ID_TEXT: &str = "00000000-0000-4000-8000-000000000001";

fn document(uri: WireUri) -> WireRequest {
    WireRequest {
        id: ID_TEXT.to_string(),
        method: "GET".to_string(),
        uri,
        version: "HTTP/1.1".to_string(),
        headers: vec![
            ("host".to_string(), "cHVibGljLmV4YW1wbGU=".to_string()),
            ("accept".to_string(), "Ki8q".to_string()),
        ],
        body: "".to_string(),
    }
}

fn request(headers: Vec<(&str, &[u8])>) -> ProxiedRequest {
    ProxiedRequest {
        method: "PUT".to_string(),
        uri: RequestUri {
            path: "/a/b".to_string(),
            query: Some("c=d".to_string()),
            fragment: Some("e".to_string()),
        },
        version: "HTTP/1.1".to_string(),
        headers: headers
            .into_iter()
            .map(|(n, v)| (n.to_string(), Base64Bytes(v.to_vec())))
            .collect(),
        body: Base64Bytes(vec![9, 8, 7]),
        id: ID,
    }
}

#[test]
fn known_versions() {
    assert_eq!(version_from_str("HTTP/0.9"), Some(HttpVersion::Http09));
    assert_eq!(version_from_str("HTTP/1.0"), Some(HttpVersion::Http10));
    assert_eq!(version_from_str("HTTP/1.1"), Some(HttpVersion::Http11));
    assert_eq!(version_from_str("HTTP/2.0"), Some(HttpVersion::H2));
}

#[test]
fn unknown_versions() {
    for text in ["", "HTTP/3.0", "HTTP/2", "http/1.1", "HTTP/1.1 ", "HTTP/1.10"] {
        assert_eq!(version_from_str(text), None);
    }
}

#[test]
fn backoff_is_half_a_second() {
    assert_eq!(POLL_BACKOFF_MS, 500);
}

#[test]
fn poll_with_no_content_backs_off() {
    assert!(matches!(poll(204, None), PollOutcome::Backoff));
    assert!(matches!(
        poll(204, Some(document(WireUri::Text("/".to_string())))),
        PollOutcome::Backoff
    ));
}

#[test]
fn poll_with_a_refused_secret() {
    assert!(matches!(poll(401, None), PollOutcome::Unauthorized));
}

#[test]
fn poll_with_an_unreadable_body() {
    assert!(matches!(poll(200, None), PollOutcome::Unreadable));
    let mut bad = document(WireUri::Text("/".to_string()));
    bad.body = "!".to_string();
    assert!(matches!(poll(200, Some(bad)), PollOutcome::Unreadable));
    let mut bad = document(WireUri::Text("/".to_string()));
    bad.id = "1234".to_string();
    assert!(matches!(poll(500, Some(bad)), PollOutcome::Unreadable));
}

#[test]
fn poll_forwards_a_request() {
    let uri = WireUri::Parts(RequestUri {
        path: "/x".to_string(),
        query: Some("y=1".to_string()),
        fragment: None,
    });
    match poll(200, Some(document(uri))) {
        PollOutcome::Forward(request) => {
            assert_eq!(request.id, ID);
            assert_eq!(request.method, "GET");
            assert_eq!(request.uri.path, "/x");
            assert_eq!(request.uri.query, Some("y=1".to_string()));
            assert_eq!(request.headers.len(), 2);
            assert_eq!(request.headers[0].1 .0, b"public.example");
        }
        _ => panic!("the request is to be forwarded"),
    }
}

#[test]
fn legacy_uri_is_forwarded_as_a_path() {
    match poll(200, Some(document(WireUri::Text("/legacy".to_string())))) {
        PollOutcome::Forward(request) => {
            assert_eq!(request.uri.path, "/legacy");
            assert_eq!(request.uri.query, None);
            assert_eq!(request.uri.fragment, None);
            let origin = origin_request(request, "origin.internal").ok().unwrap();
            assert_eq!(origin.target, "/legacy");
            assert_eq!(origin.method, "GET");
        }
        _ => panic!("the request is to be forwarded"),
    }
}

#[test]
fn build_headers_keeps_every_header_in_order() {
    let headers = build_headers(&request(vec![
        ("Cookie", b"a=1"),
        ("accept", b"*/*"),
        ("cookie", b"b=2"),
    ]))
    .unwrap();
    assert_eq!(headers.len(), 3);
    assert_eq!((headers.name(0), headers.value(0)), ("cookie", &b"a=1"[..]));
    assert_eq!((headers.name(1), headers.value(1)), ("accept", &b"*/*"[..]));
    assert_eq!((headers.name(2), headers.value(2)), ("cookie", &b"b=2"[..]));
}

#[test]
fn build_headers_refuses_an_invalid_header() {
    assert!(build_headers(&request(vec![("ok", b"1"), ("not ok", b"2")])).is_none());
    assert!(build_headers(&request(vec![("ok", b"1\n")])).is_none());
    assert_eq!(build_headers(&request(vec![])).unwrap().len(), 0);
}

#[test]
fn host_header_with_and_without_port() {
    assert_eq!(host_header("origin.internal", None), "origin.internal");
    assert_eq!(host_header("origin.internal", Some("8080")), "origin.internal:8080");
    assert_eq!(host_header("", Some("1")), ":1");
}

#[test]
fn full_url_joins_the_parts() {
    let mut uri = RequestUri { path: "/p".to_string(), query: None, fragment: None };
    assert_eq!(full_url(&uri), "/p");
    uri.query = Some("a=1&b=2".to_string());
    assert_eq!(full_url(&uri), "/p?a=1&b=2");
    uri.fragment = Some("top".to_string());
    assert_eq!(full_url(&uri), "/p?a=1&b=2#top");
    uri.query = None;
    assert_eq!(full_url(&uri), "/p#top");
}

#[test]
fn origin_request_rewrites_the_host() {
    let origin = origin_request(
        request(vec![
            ("host", b"public.example"),
            ("x-first", b"1"),
            ("Host", b"again.example"),
            ("x-second", b"2"),
        ]),
        "origin.internal:8080",
    )
    .ok()
    .unwrap();
    assert_eq!(origin.method, "PUT");
    assert_eq!(origin.target, "/a/b?c=d#e");
    assert_eq!(origin.body, vec![9, 8, 7]);
    assert_eq!(origin.headers.len(), 3);
    assert_eq!(origin.headers.name(0), "x-first");
    assert_eq!(origin.headers.name(1), "x-second");
    assert_eq!(origin.headers.name(2), "host");
    assert_eq!(origin.headers.value(2), b"origin.internal:8080");
}

#[test]
fn origin_request_errors() {
    assert_eq!(
        origin_request(request(vec![("bad name", b"x")]), "origin").err(),
        Some(ForwardError::BadHeader)
    );
    assert_eq!(
        origin_request(request(vec![("good", b"x")]), "bad\nhost").err(),
        Some(ForwardError::BadHost)
    );
    assert_eq!(
        origin_request(request(vec![("bad name", b"x")]), "bad\nhost").err(),
        Some(ForwardError::BadHeader)
    );
}

#[test]
fn report_response_carries_status_headers_and_body() {
    let mut headers = HeaderMap::new();
    headers.append("set-cookie", b"a=1");
    headers.append("set-cookie", b"b=2");
    let response = report_response(ID, 302, &headers, b"moved".to_vec());
    assert_eq!(response.request_id, ID);
    assert_eq!(response.status, 302);
    assert_eq!(response.headers.len(), 2);
    assert_eq!(response.headers[0].0, "set-cookie");
    assert_eq!(response.headers[0].1 .0, b"a=1");
    assert_eq!(response.headers[1].1 .0, b"b=2");
    assert_eq!(response.body.0, b"moved");
    let wire = response.serialize();
    assert_eq!(wire.request_id, ID_TEXT);
    assert_eq!(wire.body, "bW92ZWQ=");
}

#[test]
fn report_failure_is_an_empty_500() {
    let response = report_failure(ID);
    assert_eq!(response.request_id, ID);
    assert_eq!(response.status, 500);
    assert!(response.headers.is_empty());
    assert!(response.body.0.is_empty());
    let wire = response.serialize();
    assert_eq!(wire.status, 500);
    assert!(wire.headers.is_empty());
    assert_eq!(wire.body, "");
}

#[test]
fn str_eq_compares_text() {
    assert!(str_eq("", ""));
    assert!(str_eq("GET", "GET"));
    assert!(!str_eq("GET", "GE"));
    assert!(!str_eq("GET", "get"));
    assert!(!str_eq("a", ""));
    assert!(str_eq("\u{1F636}", "\u{1F636}"));
    assert!(!str_eq("\u{1F636}", "\u{1F637}"));
}

#[test]
fn str_bytes_is_utf8() {
    assert_eq!(str_bytes("hi"), b"hi");
    assert_eq!(str_bytes("\u{e9}"), vec![0xc3, 0xa9]);
    assert_eq!(str_bytes(""), Vec::<u8>::new());
}

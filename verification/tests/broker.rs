use request_proxy::headers::HeaderMap;
use request_proxy::server::{
    CapturedRequest, Dispatch, PopReply, Progress, Reply, RequestProxy, SecretHeader, Ticket,
    INGRESS_TIMEOUT_MS, RESPONSE_GRACE_MS,
};
use request_proxy::store::ProxiedResponse;
use request_proxy::types::{
    Base64Bytes, ClientResponse, ProxiedRequest, RequestUri, WireRequest, WireResponse, WireUri,
};

const A: u128 = 0x0123456789abcdef0123456789abcdef;
const A_TEXT: &str = "01234567-89ab-cdef-0123-456789abcdef";
const Z_TEXT: &str = "ffffffff-ffff-4fff-bfff-fffffffffff0";
const Z: u128 = 0xffffffffffff4fffbffffffffffffff0;

fn captured(method: &str, path: &str, query: Option<&str>) -> CapturedRequest {
    CapturedRequest {
        method: method.to_string(),
        uri: RequestUri {
            path: path.to_string(),
            query: query.map(|q| q.to_string()),
            fragment: None,
        },
        version: "HTTP/1.1".to_string(),
        headers: HeaderMap::new(),
        body: Vec::new(),
    }
}

fn posted(id: &str, status: u16, headers: &[(&str, &str)], body: &str) -> WireResponse {
    WireResponse {
        request_id: id.to_string(),
        status,
        headers: headers.iter().map(|(n, v)| (n.to_string(), v.to_string())).collect(),
        body: body.to_string(),
    }
}

fn popped(proxy: &mut RequestProxy) -> WireRequest {
    match proxy.pop_request() {
        PopReply::Request(wire) => wire,
        PopReply::NoContent => panic!("a request was expected"),
    }
}

fn ready(progress: Progress) -> Reply {
    match progress {
        Progress::Ready(reply) => reply,
        Progress::TimedOut(_) => panic!("timed out"),
        Progress::Pending => panic!("still pending"),
    }
}

fn content_type(reply: &Reply) -> &str {
    assert_eq!(reply.headers.len(), 1);
    assert_eq!(reply.headers.name(0), "content-type");
    std::str::from_utf8(reply.headers.value(0)).unwrap()
}

#[test]
fn defaults_are_fifteen_and_sixty_seconds() {
    assert_eq!(INGRESS_TIMEOUT_MS, 15_000);
    assert_eq!(RESPONSE_GRACE_MS, 60_000);
}

#[test]
fn call_without_the_secret_header_is_public() {
    let proxy = RequestProxy::new("s3cret".to_string());
    for method in ["GET", "POST", "DELETE", "PATCH"] {
        assert!(matches!(proxy.call(&SecretHeader::Absent, method), Dispatch::Ingress));
    }
}

#[test]
fn call_with_the_right_secret_goes_by_the_method() {
    let proxy = RequestProxy::new("s3cret".to_string());
    let key = SecretHeader::Text("s3cret".to_string());
    assert!(matches!(proxy.call(&key, "GET"), Dispatch::Pop));
    assert!(matches!(proxy.call(&key, "POST"), Dispatch::Deliver));
    for method in ["PUT", "DELETE", "HEAD", "get", "post", ""] {
        match proxy.call(&key, method) {
            Dispatch::Refuse(reply) => {
                assert_eq!(reply.status, 405);
                assert_eq!(content_type(&reply), "text/plain");
                assert_eq!(reply.body, "\u{1F62C} You suck at computers".as_bytes());
            }
            _ => panic!("method {} is not allowed", method),
        }
    }
}

#[test]
fn call_with_a_wrong_secret_is_unauthorized() {
    let mut proxy = RequestProxy::new("s3cret".to_string());
    proxy.admit_request(A, captured("GET", "/", None), 0);
    for wrong in ["wrong", "", "s3cre", "s3cret ", "S3CRET"] {
        match proxy.call(&SecretHeader::Text(wrong.to_string()), "GET") {
            Dispatch::Refuse(reply) => {
                assert_eq!(reply.status, 401);
                assert_eq!(content_type(&reply), "text/plain; charset=utf-8");
                assert_eq!(reply.body, "\u{1F438} GET OUT".as_bytes());
            }
            _ => panic!("secret {:?} must be refused", wrong),
        }
    }
    assert_eq!(proxy.queue_len(), 1);
}

#[test]
fn call_with_an_undecodable_secret_is_a_bad_request() {
    let proxy = RequestProxy::new("s3cret".to_string());
    match proxy.call(&SecretHeader::Undecodable, "GET") {
        Dispatch::Refuse(reply) => {
            assert_eq!(reply.status, 400);
            assert_eq!(content_type(&reply), "text/plain; charset=utf-8");
            assert_eq!(
                reply.body,
                "\u{1F922} Your request was bad and you should feel bad".as_bytes()
            );
        }
        _ => panic!("an undecodable secret must be refused"),
    }
}

#[test]
fn agent_method_filter() {
    assert!(matches!(RequestProxy::handle_proxy_client_request("GET"), Dispatch::Pop));
    assert!(matches!(RequestProxy::handle_proxy_client_request("POST"), Dispatch::Deliver));
    assert!(matches!(
        RequestProxy::handle_proxy_client_request("OPTIONS"),
        Dispatch::Refuse(_)
    ));
}

#[test]
fn agent_get_with_an_empty_queue_is_no_content() {
    let mut proxy = RequestProxy::new("s".to_string());
    let reply = proxy.pop_request();
    assert!(matches!(reply, PopReply::NoContent));
    assert_eq!(reply.status(), 204);
    assert_eq!(proxy.queue_len(), 0);
}

#[test]
fn happy_path() {
    let mut proxy = RequestProxy::new("s".to_string());
    let ticket = proxy.admit_request(A, captured("GET", "/x", Some("y=1")), 1_000);
    assert_eq!(ticket, Ticket { id: A, deadline: 16_000 });
    assert!(matches!(proxy.poll(&ticket, 1_001), Progress::Pending));

    let reply = proxy.pop_request();
    assert_eq!(reply.status(), 200);
    let wire = match reply {
        PopReply::Request(wire) => wire,
        PopReply::NoContent => panic!("a request was expected"),
    };
    assert_eq!(wire.id, A_TEXT);
    assert_eq!(wire.method, "GET");
    assert_eq!(wire.version, "HTTP/1.1");
    match &wire.uri {
        WireUri::Parts(u) => {
            assert_eq!(u.path, "/x");
            assert_eq!(u.query, Some("y=1".to_string()));
            assert_eq!(u.fragment, None);
        }
        WireUri::Text(_) => panic!("the target is sent in three parts"),
    }
    assert_eq!(proxy.queue_len(), 0);
    assert!(matches!(proxy.poll(&ticket, 2_000), Progress::Pending));

    let answer = proxy.push_response(
        Some(posted(A_TEXT, 200, &[("content-type", "dGV4dC9wbGFpbg==")], "aGk=")),
        3_000,
    );
    assert_eq!(answer.answered, Some(A));
    assert_eq!(answer.reply.status, 200);
    assert_eq!(answer.reply.headers.len(), 0);
    assert_eq!(answer.reply.body, A_TEXT.as_bytes());

    let served = ready(proxy.poll(&ticket, 3_000));
    assert_eq!(served.status, 200);
    assert_eq!(content_type(&served), "text/plain");
    assert_eq!(served.body, b"hi");
    assert!(!proxy.has_response(A));
    assert!(matches!(proxy.poll(&ticket, 3_001), Progress::Pending));
}

#[test]
fn timeout_withdraws_the_request() {
    let mut proxy = RequestProxy::new("s".to_string());
    let ticket = proxy.admit_request(A, captured("GET", "/slow", None), 500);
    assert_eq!(ticket.deadline, 15_500);
    assert!(matches!(proxy.poll(&ticket, 15_499), Progress::Pending));
    assert_eq!(proxy.queue_len(), 1);
    match proxy.poll(&ticket, 15_500) {
        Progress::TimedOut(reply) => {
            assert_eq!(reply.status, 504);
            assert_eq!(content_type(&reply), "text/plain; charset=utf-8");
            assert_eq!(reply.body, "\u{1F636} Timeout".as_bytes());
        }
        _ => panic!("the deadline has passed"),
    }
    assert_eq!(proxy.queue_len(), 0);
    let next = proxy.pop_request();
    assert!(matches!(next, PopReply::NoContent));
    assert_eq!(next.status(), 204);
}

#[test]
fn timeout_after_the_agent_took_the_request() {
    let mut proxy = RequestProxy::new("s".to_string());
    let ticket = proxy.admit_request(A, captured("GET", "/", None), 0);
    popped(&mut proxy);
    assert!(matches!(proxy.poll(&ticket, 20_000), Progress::TimedOut(_)));
    let answer = proxy.push_response(Some(posted(A_TEXT, 200, &[], "")), 21_000);
    assert_eq!(answer.reply.status, 200);
    assert!(proxy.has_response(A));
    proxy.discard_stale(81_000);
    assert!(proxy.has_response(A));
    proxy.discard_stale(81_001);
    assert!(!proxy.has_response(A));
}

#[test]
fn a_response_that_is_there_is_served_even_at_the_deadline() {
    let mut proxy = RequestProxy::new("s".to_string());
    let ticket = proxy.admit_request(A, captured("GET", "/", None), 0);
    popped(&mut proxy);
    proxy.push_response(Some(posted(A_TEXT, 204, &[], "")), 14_999);
    let served = ready(proxy.poll(&ticket, 15_000));
    assert_eq!(served.status, 204);
    assert_eq!(served.body, b"");
}

#[test]
fn configured_timeout_sets_the_deadline() {
    let mut proxy = RequestProxy::with_limits("s".to_string(), 100, 200);
    let ticket = proxy.admit_request(A, captured("GET", "/", None), 1_000);
    assert_eq!(ticket.deadline, 1_100);
    assert!(matches!(proxy.poll(&ticket, 1_099), Progress::Pending));
    assert!(matches!(proxy.poll(&ticket, 1_100), Progress::TimedOut(_)));
    proxy.push_response(Some(posted(A_TEXT, 200, &[], "")), 1_200);
    proxy.discard_stale(1_400);
    assert!(proxy.has_response(A));
    proxy.discard_stale(1_401);
    assert!(!proxy.has_response(A));
}

#[test]
fn deadline_saturates_at_the_largest_time() {
    let mut proxy = RequestProxy::new("s".to_string());
    let ticket = proxy.admit_request(A, captured("GET", "/", None), u64::MAX - 10);
    assert_eq!(ticket.deadline, u64::MAX);
    let ticket = proxy.admit_request(Z, captured("GET", "/", None), u64::MAX - 15_000);
    assert_eq!(ticket.deadline, u64::MAX);
    let ticket = proxy.admit_request(1, captured("GET", "/", None), u64::MAX - 15_001);
    assert_eq!(ticket.deadline, u64::MAX - 1);
}

#[test]
fn push_request_draws_a_random_version_four_identifier() {
    let mut proxy = RequestProxy::new("s".to_string());
    let first = proxy.push_request(captured("GET", "/1", None), 10);
    let second = proxy.push_request(captured("GET", "/2", None), 20);
    assert_eq!(first.deadline, 15_010);
    assert_eq!(second.deadline, 15_020);
    assert_ne!(first.id, second.id);
    for id in [first.id, second.id] {
        assert_eq!((id >> 76) & 0xf, 4);
        assert_eq!((id >> 62) & 0x3, 2);
    }
    assert_eq!(proxy.queue_len(), 2);
    let wire = popped(&mut proxy);
    assert_eq!(ProxiedRequest::deserialize(&wire).unwrap().id, first.id);
    assert_eq!(wire.id.len(), 36);
}

#[test]
fn remove_request_reports_whether_it_was_queued() {
    let mut proxy = RequestProxy::new("s".to_string());
    proxy.admit_request(A, captured("GET", "/", None), 0);
    assert!(proxy.remove_request(A));
    assert!(!proxy.remove_request(A));
    assert_eq!(proxy.queue_len(), 0);
}

#[test]
fn status_outside_the_served_range_becomes_bad_gateway() {
    for (status, served) in [(0u16, 502u16), (999, 502), (99, 502), (600, 502), (100, 100), (599, 599)] {
        let mut proxy = RequestProxy::new("s".to_string());
        let ticket = proxy.admit_request(A, captured("GET", "/", None), 0);
        popped(&mut proxy);
        proxy.push_response(Some(posted(A_TEXT, status, &[], "Ym9keQ==")), 1);
        let reply = ready(proxy.poll(&ticket, 2));
        assert_eq!(reply.status, served);
        assert_eq!(reply.body, b"body");
    }
}

#[test]
fn duplicate_headers_are_preserved_in_order() {
    let mut proxy = RequestProxy::new("s".to_string());
    let ticket = proxy.admit_request(A, captured("GET", "/", None), 0);
    popped(&mut proxy);
    proxy.push_response(
        Some(posted(A_TEXT, 200, &[("set-cookie", "YT0x"), ("set-cookie", "Yj0y")], "")),
        1,
    );
    let reply = ready(proxy.poll(&ticket, 2));
    assert_eq!(reply.headers.len(), 2);
    assert_eq!(reply.headers.name(0), "set-cookie");
    assert_eq!(reply.headers.value(0), b"a=1");
    assert_eq!(reply.headers.name(1), "set-cookie");
    assert_eq!(reply.headers.value(1), b"b=2");
}

#[test]
fn request_headers_reach_the_agent_in_order() {
    let mut proxy = RequestProxy::new("s".to_string());
    let mut request = captured("POST", "/form", None);
    request.headers.append("cookie", b"a=1");
    request.headers.append("accept", b"*/*");
    request.headers.append("cookie", &[0xff, 0x00 + 0x80]);
    request.body = vec![1, 2, 3, 0, 255];
    proxy.admit_request(A, request, 0);
    let wire = popped(&mut proxy);
    assert_eq!(
        wire.headers,
        vec![
            ("cookie".to_string(), "YT0x".to_string()),
            ("accept".to_string(), "Ki8q".to_string()),
            ("cookie".to_string(), "/4A=".to_string()),
        ]
    );
    assert_eq!(wire.body, "AQIDAP8=");
    let request = ProxiedRequest::deserialize(&wire).unwrap();
    assert_eq!(request.method, "POST");
    assert_eq!(request.body.0, vec![1, 2, 3, 0, 255]);
    assert_eq!(request.headers[2].1 .0, vec![0xff, 0x80]);
}

#[test]
fn invalid_posted_headers_are_skipped() {
    let mut proxy = RequestProxy::new("s".to_string());
    let ticket = proxy.admit_request(A, captured("GET", "/", None), 0);
    popped(&mut proxy);
    proxy.push_response(
        Some(posted(
            A_TEXT,
            200,
            &[("x-good", "MQ=="), ("bad name", "Mg=="), ("x-bad-value", "AA=="), ("x-last", "Mw==")],
            "b2s=",
        )),
        1,
    );
    let reply = ready(proxy.poll(&ticket, 2));
    assert_eq!(reply.headers.len(), 2);
    assert_eq!(reply.headers.name(0), "x-good");
    assert_eq!(reply.headers.name(1), "x-last");
    assert_eq!(reply.body, b"ok");
}

#[test]
fn orphan_response_is_stored_and_collected_after_the_grace_period() {
    let mut proxy = RequestProxy::new("s".to_string());
    let answer = proxy.push_response(Some(posted(Z_TEXT, 200, &[], "")), 5_000);
    assert_eq!(answer.answered, Some(Z));
    assert_eq!(answer.reply.status, 200);
    assert_eq!(answer.reply.body, Z_TEXT.as_bytes());
    assert!(proxy.has_response(Z));
    proxy.discard_stale(65_000);
    assert!(proxy.has_response(Z));
    proxy.discard_stale(65_001);
    assert!(!proxy.has_response(Z));
}

#[test]
fn unreadable_posts_are_bad_requests_and_change_nothing() {
    let mut proxy = RequestProxy::new("s".to_string());
    let ticket = proxy.admit_request(A, captured("GET", "/", None), 0);
    popped(&mut proxy);
    let documents = vec![
        None,
        Some(posted("nonsense", 200, &[], "")),
        Some(posted(A_TEXT, 200, &[], "%%%")),
        Some(posted(A_TEXT, 200, &[("a", "?")], "")),
    ];
    for document in documents {
        let outcome = proxy.push_response(document, 1);
        assert_eq!(outcome.answered, None);
        let reply = outcome.reply;
        assert_eq!(reply.status, 400);
        assert_eq!(content_type(&reply), "text/plain; charset=utf-8");
        assert_eq!(
            reply.body,
            "\u{1F922} Your request was bad and you should feel bad".as_bytes()
        );
        assert!(!proxy.has_response(A));
    }
    assert!(matches!(proxy.poll(&ticket, 2), Progress::Pending));
    assert!(matches!(proxy.poll(&ticket, 15_000), Progress::TimedOut(_)));
}

#[test]
fn serving_keeps_the_body_and_clamps_the_status() {
    let mut headers = HeaderMap::new();
    headers.append("x-a", b"1");
    let reply = Reply::serving(ProxiedResponse {
        request_id: A,
        status: 700,
        headers,
        body: vec![0, 159, 146, 150],
    });
    assert_eq!(reply.status, 502);
    assert_eq!(reply.headers.len(), 1);
    assert_eq!(reply.body, vec![0, 159, 146, 150]);
}

#[test]
fn from_client_keeps_status_and_body() {
    let delivery = ProxiedResponse::from_client(ClientResponse {
        request_id: A,
        status: 999,
        headers: vec![("Content-Length".to_string(), Base64Bytes(b"2".to_vec()))],
        body: Base64Bytes(vec![0xff, 0xfe]),
    });
    assert_eq!(delivery.request_id, A);
    assert_eq!(delivery.status, 999);
    assert_eq!(delivery.headers.name(0), "content-length");
    assert_eq!(delivery.body, vec![0xff, 0xfe]);
}

#[test]
fn fixed_replies() {
    assert_eq!(Reply::timeout().status, 504);
    assert_eq!(Reply::unauthorized().status, 401);
    assert_eq!(Reply::bad_request().status, 400);
    assert_eq!(Reply::method_not_allowed().status, 405);
    let accepted = Reply::accepted(A);
    assert_eq!(accepted.status, 200);
    assert_eq!(accepted.body, A_TEXT.as_bytes());
    assert_eq!(content_type(&Reply::timeout()), "text/plain; charset=utf-8");
    assert_eq!(content_type(&Reply::unauthorized()), "text/plain; charset=utf-8");
    assert_eq!(content_type(&Reply::bad_request()), "text/plain; charset=utf-8");
    assert_eq!(content_type(&Reply::method_not_allowed()), "text/plain");
}

#[test]
fn concurrent_ingresses_are_dequeued_in_commit_order() {
    let mut proxy = RequestProxy::new("s".to_string());
    let mut ids = Vec::new();
    for i in 0..20u64 {
        ids.push(proxy.push_request(captured("GET", &format!("/{}", i), None), i).id);
    }
    for (i, id) in ids.iter().enumerate() {
        let request = ProxiedRequest::deserialize(&popped(&mut proxy)).unwrap();
        assert_eq!(request.id, *id);
        assert_eq!(request.uri.path, format!("/{}", i));
    }
    assert!(matches!(proxy.pop_request(), PopReply::NoContent));
}

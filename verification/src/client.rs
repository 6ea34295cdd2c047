//! The agent's decisions: what to do with the broker's answer to a poll, how
//! to re-issue a request against the origin, and what to report back.

use vstd::prelude::*;
use vstd::string::{is_ascii, is_ascii_spec_bytes};
use vstd::utf8::encode_utf8;
use crate::encoding::{ascii_text, header_value_ok, plain_name};
use crate::headers::{accepted_header, HeaderMap, HeaderModel};
use crate::text::{str_bytes, str_eq};
use crate::types::{
    accepted_headers,
    all_plain,
    lemma_accepted_as_they_are,
    lemma_ascii_text_of_bytes,
    pairs_model,
    plain_header,
    Base64Bytes,
    ClientResponse,
    ProxiedRequest,
    RequestId,
    RequestModel,
    RequestUri,
    UriModel,
    ResponseModel,
    WireRequest,
};

verus! {

/// How long, in milliseconds, the agent waits before it polls again after an
/// empty answer or a failed poll.
pub const POLL_BACKOFF_MS: u64 = 500;

/// The status that the agent reports where the origin could not be reached.
pub const UPSTREAM_FAILURE_STATUS: u16 = 500;

/// A protocol version that the agent knows.
#[derive(Clone, Copy, Debug, PartialEq, Eq)]
pub enum HttpVersion {
    Http09,
    Http10,
    Http11,
    H2,
}

/// The version that a version string names, if it names one.
pub open spec fn version_named(text: Seq<char>) -> Option<HttpVersion> {
    if text == "HTTP/0.9"@ {
        Some(HttpVersion::Http09)
    } else if text == "HTTP/1.0"@ {
        Some(HttpVersion::Http10)
    } else if text == "HTTP/1.1"@ {
        Some(HttpVersion::Http11)
    } else if text == "HTTP/2.0"@ {
        Some(HttpVersion::H2)
    } else {
        None
    }
}

/// Reads a protocol version as the broker records it; `None` for any other
/// string.
pub fn version_from_str(ver: &str) -> (version: Option<HttpVersion>)
    ensures
        version == version_named(ver@),
{
    if str_eq(ver, "HTTP/0.9") {
        Some(HttpVersion::Http09)
    } else if str_eq(ver, "HTTP/1.0") {
        Some(HttpVersion::Http10)
    } else if str_eq(ver, "HTTP/1.1") {
        Some(HttpVersion::Http11)
    } else if str_eq(ver, "HTTP/2.0") {
        Some(HttpVersion::H2)
    } else {
        None
    }
}

/// Whether `http` accepts every one of the carried headers.
pub open spec fn all_accepted(headers: Seq<HeaderModel>) -> bool {
    forall|i: int|
        0 <= i < headers.len() ==> accepted_header(
            encode_utf8((#[trigger] headers[i]).0),
            headers[i].1,
        ) is Some
}

/// The header list for the headers of a request: every header, in order, a
/// name that occurs several times with all its values. `None` exactly where
/// `http` refuses the name or the value of some header. Plain headers are
/// never refused: where all are plain, the list holds them all as they are.
pub fn build_headers(request: &ProxiedRequest) -> (headers: Option<HeaderMap>)
    ensures
        match headers {
            Some(map) => all_accepted(request@.headers) && map@ == accepted_headers(
                request@.headers,
            ),
            None => !all_accepted(request@.headers),
        },
        all_plain(request@.headers) ==> (headers matches Some(map) && map@ == request@.headers),
{
    let mut map = HeaderMap::new();
    let ghost all = pairs_model(request.headers@);
    let mut i: usize = 0;
    proof {
        assert(all.take(0) =~= Seq::<HeaderModel>::empty());
    }
    while i < request.headers.len()
        invariant
            i <= request.headers@.len(),
            all == pairs_model(request.headers@),
            map@ == accepted_headers(all.take(i as int)),
            forall|j: int|
                0 <= j < i ==> accepted_header(encode_utf8((#[trigger] all[j]).0), all[j].1) is Some,
            forall|j: int|
                0 <= j < i && plain_header(#[trigger] all[j]) ==> accepted_header(
                    encode_utf8(all[j].0),
                    all[j].1,
                ) == Some(all[j]),
        decreases request.headers@.len() - i,
    {
        let added = map.append(
            request.headers[i].0.as_str(),
            request.headers[i].1.0.as_slice(),
        );
        proof {
            let next = all.take(i as int + 1);
            assert(next.drop_last() =~= all.take(i as int));
            assert(next.last() == all[i as int]);
            if plain_header(all[i as int]) {
                lemma_ascii_text_of_bytes(all[i as int].0);
            }
        }
        if !added {
            return None;
        }
        i = i + 1;
    }
    proof {
        assert(all.take(i as int) =~= all);
        if all_plain(all) {
            lemma_accepted_as_they_are(all);
        }
    }
    Some(map)
}

/// What the agent does with the broker's answer to a poll.
pub enum PollOutcome {
    /// Nothing waits: poll again after the backoff.
    Backoff,
    /// The broker refuses the secret.
    Unauthorized,
    /// The answer holds no request that can be read.
    Unreadable,
    /// Re-issue this request against the origin.
    Forward(ProxiedRequest),
}

/// Decides what to do with the broker's answer to a poll, from its status
/// and from its body read as a document (`None` where it is no document).
/// Status 204 means that nothing waits, and 401 that the secret is refused.
/// With any other status the document is read: a request is forwarded, its
/// target taken as a path where it is a bare string.
pub fn poll(status: u16, document: Option<WireRequest>) -> (outcome: PollOutcome)
    ensures
        match outcome {
            PollOutcome::Backoff => status == 204,
            PollOutcome::Unauthorized => status == 401,
            PollOutcome::Unreadable => status != 204 && status != 401 && polled_request(
                document,
            ) is None,
            PollOutcome::Forward(request) => status != 204 && status != 401 && polled_request(
                document,
            ) == Some(request@),
        },
{
    if status == 204 {
        return PollOutcome::Backoff;
    }
    if status == 401 {
        return PollOutcome::Unauthorized;
    }
    match document {
        Some(wire) => match ProxiedRequest::deserialize(&wire) {
            Ok(request) => PollOutcome::Forward(request),
            Err(_) => PollOutcome::Unreadable,
        },
        None => PollOutcome::Unreadable,
    }
}

/// The request that an answer's body stands for: `None` where the body is
/// no document, or where the document's identifier, a header value or the
/// body in it cannot be read.
pub open spec fn polled_request(document: Option<WireRequest>) -> Option<RequestModel> {
    match document {
        Some(wire) => match wire@.decoded() {
            Ok(request) => Some(request),
            Err(_) => None,
        },
        None => None,
    }
}

/// The text of the `Host` header for an origin: the host, followed by a
/// colon and the port where there is one.
pub open spec fn host_text(host: Seq<char>, port: Option<Seq<char>>) -> Seq<char> {
    match port {
        Some(p) => host + ":"@ + p,
        None => host,
    }
}

/// The value of the `Host` header for an origin. The port comes as the
/// decimal text that the origin's address gives.
pub fn host_header(host: &str, port: Option<&str>) -> (text: String)
    ensures
        text@ == host_text(
            host@,
            match port {
                Some(p) => Some(p@),
                None => None,
            },
        ),
{
    let mut text = host.to_owned();
    match port {
        Some(p) => {
            text.append(":");
            text.append(p);
        },
        None => {},
    }
    text
}

/// What the agent reports for a response of the origin: the status as it
/// is, every header of the response in order, and the body.
pub fn report_response(request_id: RequestId, status: u16, headers: &HeaderMap, body: Vec<u8>) -> (
    response: ClientResponse
)
    ensures
        response@ == (ResponseModel { request_id, status, headers: headers@, body: body@ }),
{
    ClientResponse {
        request_id,
        status,
        headers: ClientResponse::parse_header_map(headers),
        body: Base64Bytes(body),
    }
}

/// What the agent reports where the origin could not be reached: status 500
/// with neither headers nor body.
pub fn report_failure(request_id: RequestId) -> (response: ClientResponse)
    ensures
        response@ == (ResponseModel {
            request_id,
            status: UPSTREAM_FAILURE_STATUS,
            headers: Seq::empty(),
            body: Seq::empty(),
        }),
{
    let response = ClientResponse {
        request_id,
        status: UPSTREAM_FAILURE_STATUS,
        headers: Vec::new(),
        body: Base64Bytes(Vec::new()),
    };
    assert(pairs_model(response.headers@) =~= Seq::<HeaderModel>::empty());
    response
}


/// The target of a request as one string: the path, then `?` and the query
/// where there is one, then `#` and the fragment where there is one.
pub open spec fn target_text(uri: UriModel) -> Seq<char> {
    let with_query = match uri.query {
        Some(q) => uri.path + "?"@ + q,
        None => uri.path,
    };
    match uri.fragment {
        Some(f) => with_query + "#"@ + f,
        None => with_query,
    }
}

/// The target of a request as one string.
pub fn full_url(uri: &RequestUri) -> (text: String)
    ensures
        text@ == target_text(uri@),
{
    let mut text = uri.path.clone();
    match &uri.query {
        Some(q) => {
            text.append("?");
            text.append(q.as_str());
        },
        None => {},
    }
    match &uri.fragment {
        Some(f) => {
            text.append("#");
            text.append(f.as_str());
        },
        None => {},
    }
    text
}

/// The request that the agent sends to the origin.
pub struct OriginRequest {
    pub method: String,
    /// Path, query and fragment as one string.
    pub target: String,
    pub headers: HeaderMap,
    pub body: Vec<u8>,
}

/// Why a request cannot be sent to the origin.
#[derive(Clone, Copy, Debug, PartialEq, Eq)]
pub enum ForwardError {
    /// `http` refuses the name or the value of one of the request's headers.
    BadHeader,
    /// The origin's host holds a byte that no header value may hold.
    BadHost,
}

/// The name `host` is a plain name, and so its own normal form.
proof fn lemma_host_is_plain()
    ensures
        plain_name(encode_utf8("host"@)),
        ascii_text(encode_utf8("host"@)) == "host"@,
{
    reveal_strlit("host");
    let name = "host";
    assert(is_ascii(name));
    is_ascii_spec_bytes(name);
    let bytes = encode_utf8(name@);
    assert(bytes =~= Seq::new(name@.len(), |i: int| name@[i] as u8));
    assert(ascii_text(bytes) =~= name@);
}

/// Prepares a request for the origin: method, target and body as they came,
/// the headers in order, and the `host` header set to the origin's host in
/// place of whatever the public caller sent. Where some header of the
/// request is refused the error is `BadHeader`; otherwise, where the host
/// holds a byte that no header value may hold, it is `BadHost`.
pub fn origin_request(request: ProxiedRequest, host: &str) -> (plan: Result<
    OriginRequest,
    ForwardError,
>)
    ensures
        match plan {
            Ok(origin) => {
                &&& all_accepted(request@.headers)
                &&& header_value_ok(encode_utf8(host@))
                &&& origin.headers@ == accepted_headers(request@.headers).filter(
                    |e: HeaderModel| e.0 != "host"@,
                ).push(("host"@, encode_utf8(host@)))
                &&& origin.method@ == request@.method
                &&& origin.target@ == target_text(request@.uri)
                &&& origin.body@ == request@.body
            },
            Err(ForwardError::BadHeader) => !all_accepted(request@.headers),
            Err(ForwardError::BadHost) => all_accepted(request@.headers) && !header_value_ok(
                encode_utf8(host@),
            ),
        },
{
    proof {
        lemma_host_is_plain();
    }
    let mut headers = match build_headers(&request) {
        Some(h) => h,
        None => {
            return Err(ForwardError::BadHeader);
        },
    };
    let value = str_bytes(host);
    if !headers.insert("host", value.as_slice()) {
        return Err(ForwardError::BadHost);
    }
    let target = full_url(&request.uri);
    Ok(OriginRequest { method: request.method, target, headers, body: request.body.0 })
}

} // verus!

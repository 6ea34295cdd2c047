//! The broker: it tells public requests from agent calls, queues the former,
//! hands them to the agent, and serves each public caller the response that
//! the agent delivered for it, or a timeout.

use vstd::prelude::*;
use vstd::string::{is_ascii, is_ascii_spec_bytes};
use vstd::utf8::encode_utf8;
use crate::encoding::{
    ascii_text,
    header_value_ok,
    hyphenated,
    plain_name,
    random_request_id,
    request_id_to_text,
};
use crate::headers::{HeaderMap, HeaderModel};
use crate::store::{
    CorrelationStore,
    DeliveryModel,
    PendingModel,
    PendingRequest,
    ProxiedResponse,
    StoreModel,
};
use crate::text::{str_bytes, str_eq};
use crate::types::{
    accepted_headers,
    all_plain,
    served_status,
    Base64Bytes,
    ClientResponse,
    ProxiedRequest,
    RequestId,
    RequestModel,
    RequestUri,
    ResponseModel,
    UriModel,
    WireError,
    WireRequest,
    WireResponse,
};

verus! {

/// How long, in milliseconds, a public caller is kept waiting by default.
pub const INGRESS_TIMEOUT_MS: u64 = 15000;

/// How long, in milliseconds, an unclaimed response is kept by default.
pub const RESPONSE_GRACE_MS: u64 = 60000;

/// The name of the header that carries the shared secret.
pub const SECRET_HEADER: &'static str = "x-proxy-secret";

/// The content type of a reply that says a method is not allowed.
pub const PLAIN_TEXT: &'static str = "text/plain";

/// The content type of the other replies that the broker words itself.
pub const PLAIN_TEXT_UTF8: &'static str = "text/plain; charset=utf-8";

/// The body of the reply to a public caller that was not answered in time.
pub const TIMEOUT_TEXT: &'static str = "\u{1F636} Timeout";

/// The body of the reply to a call with a wrong secret.
pub const UNAUTHORIZED_TEXT: &'static str = "\u{1F438} GET OUT";

/// The body of the reply to a call that cannot be read.
pub const BAD_REQUEST_TEXT: &'static str =
    "\u{1F922} Your request was bad and you should feel bad";

/// The body of the reply to an agent call with a method that is not allowed.
pub const METHOD_NOT_ALLOWED_TEXT: &'static str = "\u{1F62C} You suck at computers";

/// The mathematical content of a [`Reply`].
pub struct ReplyModel {
    pub status: u16,
    pub headers: Seq<HeaderModel>,
    pub body: Seq<u8>,
}

/// An HTTP reply of the broker: status, headers in order, body.
pub struct Reply {
    pub status: u16,
    pub headers: HeaderMap,
    pub body: Vec<u8>,
}

impl View for Reply {
    type V = ReplyModel;

    open spec fn view(&self) -> ReplyModel {
        ReplyModel { status: self.status, headers: self.headers@, body: self.body@ }
    }
}

impl ReplyModel {
    /// A reply whose body is text, with the content type as its only header.
    pub open spec fn plain(status: u16, content_type: Seq<char>, text: Seq<char>) -> ReplyModel {
        ReplyModel {
            status,
            headers: seq![("content-type"@, encode_utf8(content_type))],
            body: encode_utf8(text),
        }
    }

    /// The reply to a public caller whose request was not answered in time.
    pub open spec fn timeout() -> ReplyModel {
        ReplyModel::plain(504, PLAIN_TEXT_UTF8@, TIMEOUT_TEXT@)
    }

    /// The reply to a call that carries a wrong secret.
    pub open spec fn unauthorized() -> ReplyModel {
        ReplyModel::plain(401, PLAIN_TEXT_UTF8@, UNAUTHORIZED_TEXT@)
    }

    /// The reply to a call whose secret or whose document cannot be read.
    pub open spec fn bad_request() -> ReplyModel {
        ReplyModel::plain(400, PLAIN_TEXT_UTF8@, BAD_REQUEST_TEXT@)
    }

    /// The reply to an agent call that is neither a GET nor a POST.
    pub open spec fn method_not_allowed() -> ReplyModel {
        ReplyModel::plain(405, PLAIN_TEXT@, METHOD_NOT_ALLOWED_TEXT@)
    }

    /// The reply with which a delivered response is served: its status
    /// where that lies in 100..=599 and 502 otherwise, its headers, and its
    /// body byte for byte.
    pub open spec fn serving(response: DeliveryModel) -> ReplyModel {
        ReplyModel {
            status: served_status(response.status),
            headers: response.headers,
            body: response.body,
        }
    }
}

impl DeliveryModel {
    /// The response to deliver for what the agent reported: status and body
    /// as they are, and the headers that `http` accepts.
    pub open spec fn of(response: ResponseModel) -> DeliveryModel {
        DeliveryModel {
            request_id: response.request_id,
            status: response.status,
            headers: accepted_headers(response.headers),
            body: response.body,
        }
    }
}

/// The name `content-type` is a plain name, and so its own normal form.
proof fn lemma_content_type_is_plain()
    ensures
        plain_name(encode_utf8("content-type"@)),
        ascii_text(encode_utf8("content-type"@)) == "content-type"@,
{
    reveal_strlit("content-type");
    let name = "content-type";
    assert(is_ascii(name));
    is_ascii_spec_bytes(name);
    let bytes = encode_utf8(name@);
    assert(bytes =~= Seq::new(name@.len(), |i: int| name@[i] as u8));
    assert(ascii_text(bytes) =~= name@);
}

/// The two content types hold only bytes that a header value may hold.
proof fn lemma_content_types_are_values()
    ensures
        header_value_ok(encode_utf8(PLAIN_TEXT@)),
        header_value_ok(encode_utf8(PLAIN_TEXT_UTF8@)),
{
    reveal_strlit("text/plain");
    reveal_strlit("text/plain; charset=utf-8");
    let short = "text/plain";
    let long = "text/plain; charset=utf-8";
    assert(is_ascii(short));
    assert(is_ascii(long));
    is_ascii_spec_bytes(short);
    is_ascii_spec_bytes(long);
    assert(encode_utf8(short@) =~= Seq::new(short@.len(), |i: int| short@[i] as u8));
    assert(encode_utf8(long@) =~= Seq::new(long@.len(), |i: int| long@[i] as u8));
}

impl Reply {
    /// A reply whose body is text, with the content type as its only header.
    fn plain(status: u16, content_type: &str, text: &str) -> (reply: Reply)
        requires
            header_value_ok(encode_utf8(content_type@)),
        ensures
            reply@ == ReplyModel::plain(status, content_type@, text@),
    {
        let mut headers = HeaderMap::new();
        let value = str_bytes(content_type);
        proof {
            lemma_content_type_is_plain();
        }
        let added = headers.append("content-type", value.as_slice());
        assert(headers@ =~= seq![("content-type"@, encode_utf8(content_type@))]);
        Reply { status, headers, body: str_bytes(text) }
    }

    /// The reply to a public caller whose request was not answered in time.
    pub fn timeout() -> (reply: Reply)
        ensures
            reply@ == ReplyModel::timeout(),
            reply.status == 504,
    {
        proof {
            lemma_content_types_are_values();
        }
        Reply::plain(504, PLAIN_TEXT_UTF8, TIMEOUT_TEXT)
    }

    /// The reply to a call that carries a wrong secret.
    pub fn unauthorized() -> (reply: Reply)
        ensures
            reply@ == ReplyModel::unauthorized(),
            reply.status == 401,
    {
        proof {
            lemma_content_types_are_values();
        }
        Reply::plain(401, PLAIN_TEXT_UTF8, UNAUTHORIZED_TEXT)
    }

    /// The reply to a call whose secret or whose document cannot be read.
    pub fn bad_request() -> (reply: Reply)
        ensures
            reply@ == ReplyModel::bad_request(),
            reply.status == 400,
    {
        proof {
            lemma_content_types_are_values();
        }
        Reply::plain(400, PLAIN_TEXT_UTF8, BAD_REQUEST_TEXT)
    }

    /// The reply to an agent call that is neither a GET nor a POST.
    pub fn method_not_allowed() -> (reply: Reply)
        ensures
            reply@ == ReplyModel::method_not_allowed(),
            reply.status == 405,
    {
        proof {
            lemma_content_types_are_values();
        }
        Reply::plain(405, PLAIN_TEXT, METHOD_NOT_ALLOWED_TEXT)
    }

    /// The reply with which a delivered response is served to the public
    /// caller.
    pub fn serving(response: ProxiedResponse) -> (reply: Reply)
        ensures
            reply@ == ReplyModel::serving(response@),
    {
        let status = if 100 <= response.status && response.status <= 599 {
            response.status
        } else {
            502
        };
        Reply { status, headers: response.headers, body: response.body }
    }
}

impl ProxiedResponse {
    /// The response to deliver for what the agent reported. A header whose
    /// name or value `http` refuses is left out; the response is delivered
    /// with the others. Plain headers are all kept, in order.
    pub fn from_client(response: ClientResponse) -> (delivery: ProxiedResponse)
        ensures
            delivery@ == DeliveryModel::of(response@),
            all_plain(response@.headers) ==> delivery@.headers == response@.headers,
    {
        let headers = response.headers();
        ProxiedResponse {
            request_id: response.request_id,
            status: response.status,
            headers,
            body: response.body.0,
        }
    }
}


/// What a call carries under the secret header.
pub enum SecretHeader {
    /// The call has no such header.
    Absent,
    /// The header's value, read as text.
    Text(String),
    /// The header is there, and its value is not text.
    Undecodable,
}

/// The mathematical content of a [`SecretHeader`].
pub enum SecretHeaderModel {
    Absent,
    Text(Seq<char>),
    Undecodable,
}

impl View for SecretHeader {
    type V = SecretHeaderModel;

    open spec fn view(&self) -> SecretHeaderModel {
        match self {
            SecretHeader::Absent => SecretHeaderModel::Absent,
            SecretHeader::Text(t) => SecretHeaderModel::Text(t@),
            SecretHeader::Undecodable => SecretHeaderModel::Undecodable,
        }
    }
}

/// What the broker does with a call.
pub enum Dispatch {
    /// A public request: queue it and keep the caller waiting.
    Ingress,
    /// The agent asks for the next request.
    Pop,
    /// The agent delivers a response.
    Deliver,
    /// The call is turned away with this reply.
    Refuse(Reply),
}

/// The mathematical content of a [`Dispatch`].
pub enum DispatchModel {
    Ingress,
    Pop,
    Deliver,
    Refuse(ReplyModel),
}

impl View for Dispatch {
    type V = DispatchModel;

    open spec fn view(&self) -> DispatchModel {
        match self {
            Dispatch::Ingress => DispatchModel::Ingress,
            Dispatch::Pop => DispatchModel::Pop,
            Dispatch::Deliver => DispatchModel::Deliver,
            Dispatch::Refuse(reply) => DispatchModel::Refuse(reply@),
        }
    }
}

impl DispatchModel {
    /// What becomes of an agent call: a GET asks for the next request, a
    /// POST delivers a response, and any other method is not allowed.
    pub open spec fn for_agent(method: Seq<char>) -> DispatchModel {
        if method == "GET"@ {
            DispatchModel::Pop
        } else if method == "POST"@ {
            DispatchModel::Deliver
        } else {
            DispatchModel::Refuse(ReplyModel::method_not_allowed())
        }
    }

    /// What becomes of a call. Without the secret header it is a public
    /// request. With the right secret it is an agent call. With a wrong
    /// secret it is unauthorized, and with a secret that is not text it is a
    /// bad request.
    pub open spec fn for_call(
        secret: Seq<char>,
        header: SecretHeaderModel,
        method: Seq<char>,
    ) -> DispatchModel {
        match header {
            SecretHeaderModel::Absent => DispatchModel::Ingress,
            SecretHeaderModel::Text(key) => if key == secret {
                DispatchModel::for_agent(method)
            } else {
                DispatchModel::Refuse(ReplyModel::unauthorized())
            },
            SecretHeaderModel::Undecodable => DispatchModel::Refuse(ReplyModel::bad_request()),
        }
    }
}

/// A public request as it was captured, body drained.
pub struct CapturedRequest {
    pub method: String,
    pub uri: RequestUri,
    /// The protocol version as it was received, such as `HTTP/1.1`.
    pub version: String,
    pub headers: HeaderMap,
    pub body: Vec<u8>,
}

/// The mathematical content of a [`CapturedRequest`].
pub struct CapturedModel {
    pub method: Seq<char>,
    pub uri: UriModel,
    pub version: Seq<char>,
    pub headers: Seq<HeaderModel>,
    pub body: Seq<u8>,
}

impl View for CapturedRequest {
    type V = CapturedModel;

    open spec fn view(&self) -> CapturedModel {
        CapturedModel {
            method: self.method@,
            uri: self.uri@,
            version: self.version@,
            headers: self.headers@,
            body: self.body@,
        }
    }
}

impl CapturedModel {
    /// The pending request for a captured one, under an identifier and with
    /// a deadline.
    pub open spec fn pending(self, id: u128, deadline: u64) -> PendingModel {
        PendingModel {
            id,
            method: self.method,
            uri: self.uri,
            version: self.version,
            headers: self.headers,
            body: self.body,
            deadline,
        }
    }
}

impl PendingModel {
    /// The request that is handed to the agent for a pending one.
    pub open spec fn proxied(self) -> RequestModel {
        RequestModel {
            method: self.method,
            uri: self.uri,
            version: self.version,
            headers: self.headers,
            body: self.body,
            id: self.id,
        }
    }
}

/// What a waiting public caller holds: the identifier of its request and the
/// time, in milliseconds, from which it waits no longer.
#[derive(Clone, Copy, Debug, PartialEq, Eq)]
pub struct Ticket {
    pub id: RequestId,
    pub deadline: u64,
}

/// The deadline of a request that arrives at `now` and may wait for
/// `timeout`: their sum, or the largest time where the sum is beyond it.
pub open spec fn deadline_after(now: u64, timeout: u64) -> u64 {
    if now + timeout > u64::MAX {
        u64::MAX
    } else {
        (now + timeout) as u64
    }
}

/// What the agent gets when it asks for the next request.
pub enum PopReply {
    /// No request waits: status 204, no body.
    NoContent,
    /// The oldest waiting request, as a document: status 200.
    Request(WireRequest),
}

/// The outcome of a post of the agent.
pub struct Posted {
    /// The reply to the agent.
    pub reply: Reply,
    /// The request that the post answered, if it answered one: the caller
    /// that waits under this identifier is to be woken.
    pub answered: Option<RequestId>,
}

/// Where a waiting public caller stands.
pub enum Progress {
    /// The response has arrived: serve this reply.
    Ready(Reply),
    /// The deadline has passed without a response: serve this reply.
    TimedOut(Reply),
    /// Neither: keep waiting.
    Pending,
}

/// The mathematical content of a [`RequestProxy`].
pub struct ProxyModel {
    pub secret: Seq<char>,
    pub timeout: u64,
    pub grace: u64,
    pub store: StoreModel,
}

/// The broker's state: the shared secret, the two time limits, and the
/// correlation store.
pub struct RequestProxy {
    secret: String,
    timeout: u64,
    grace: u64,
    store: CorrelationStore,
}

impl View for RequestProxy {
    type V = ProxyModel;

    closed spec fn view(&self) -> ProxyModel {
        ProxyModel {
            secret: self.secret@,
            timeout: self.timeout,
            grace: self.grace,
            store: self.store@,
        }
    }
}

impl ProxyModel {
    /// The same broker with another store.
    pub open spec fn with_store(self, store: StoreModel) -> ProxyModel {
        ProxyModel { store, ..self }
    }
}

impl RequestProxy {
    /// Whether the broker's store is in order inside. Every constructor gives
    /// such a broker and every operation keeps it so.
    pub closed spec fn wf(&self) -> bool {
        self.store.wf()
    }

    /// A broker with this secret, the default time limits and an empty store.
    pub fn new(secret: String) -> (proxy: RequestProxy)
        ensures
            proxy.wf(),
            proxy@ == (ProxyModel {
                secret: secret@,
                timeout: INGRESS_TIMEOUT_MS,
                grace: RESPONSE_GRACE_MS,
                store: StoreModel::empty(),
            }),
    {
        RequestProxy::with_limits(secret, INGRESS_TIMEOUT_MS, RESPONSE_GRACE_MS)
    }

    /// A broker with this secret and these time limits, in milliseconds, and
    /// an empty store.
    pub fn with_limits(secret: String, timeout: u64, grace: u64) -> (proxy: RequestProxy)
        ensures
            proxy.wf(),
            proxy@ == (ProxyModel { secret: secret@, timeout, grace, store: StoreModel::empty() }),
    {
        RequestProxy { secret, timeout, grace, store: CorrelationStore::new() }
    }

    /// Decides what to do with a call from its secret header and its method.
    pub fn call(&self, header: &SecretHeader, method: &str) -> (dispatch: Dispatch)
        ensures
            dispatch@ == DispatchModel::for_call(self@.secret, header@, method@),
    {
        match header {
            SecretHeader::Absent => Dispatch::Ingress,
            SecretHeader::Text(key) => {
                if str_eq(key.as_str(), self.secret.as_str()) {
                    RequestProxy::handle_proxy_client_request(method)
                } else {
                    Dispatch::Refuse(Reply::unauthorized())
                }
            },
            SecretHeader::Undecodable => Dispatch::Refuse(Reply::bad_request()),
        }
    }

    /// Decides what to do with a call of the agent from its method.
    pub fn handle_proxy_client_request(method: &str) -> (dispatch: Dispatch)
        ensures
            dispatch@ == DispatchModel::for_agent(method@),
    {
        if str_eq(method, "GET") {
            Dispatch::Pop
        } else if str_eq(method, "POST") {
            Dispatch::Deliver
        } else {
            Dispatch::Refuse(Reply::method_not_allowed())
        }
    }

    /// Queues a public request under a random identifier of version 4 and
    /// hands the caller its ticket. The request waits at the tail of the
    /// queue; its deadline is `now` plus the broker's timeout. That the
    /// identifier was never used before is as likely as 122 random bits make
    /// it, and is not proved.
    pub fn push_request(&mut self, request: CapturedRequest, now: u64) -> (ticket: Ticket)
        requires
            old(self).wf(),
        ensures
            final(self).wf(),
            (ticket.id >> 76) & 0xf == 4,
            (ticket.id >> 62) & 0x3 == 2,
            ticket.deadline == deadline_after(now, old(self)@.timeout),
            final(self)@ == old(self)@.with_store(
                old(self)@.store.enqueue(request@.pending(ticket.id, ticket.deadline)),
            ),
    {
        let id = random_request_id();
        self.admit_request(id, request, now)
    }

    /// Queues a public request under the identifier `id` and hands the caller
    /// its ticket. The request waits at the tail of the queue; its deadline
    /// is `now` plus the broker's timeout.
    pub fn admit_request(&mut self, id: RequestId, request: CapturedRequest, now: u64) -> (ticket:
        Ticket)
        requires
            old(self).wf(),
        ensures
            final(self).wf(),
            ticket.id == id,
            ticket.deadline == deadline_after(now, old(self)@.timeout),
            final(self)@ == old(self)@.with_store(
                old(self)@.store.enqueue(request@.pending(id, ticket.deadline)),
            ),
    {
        let deadline = if now > u64::MAX - self.timeout {
            u64::MAX
        } else {
            now + self.timeout
        };
        let pending = PendingRequest {
            id,
            method: request.method,
            uri: request.uri,
            version: request.version,
            headers: request.headers,
            body: request.body,
            deadline,
        };
        self.store.enqueue(pending);
        Ticket { id, deadline }
    }

    /// Withdraws a request: afterwards no request with this identifier waits
    /// in the queue or counts as in flight. Says whether the queue held one.
    pub fn remove_request(&mut self, request_id: RequestId) -> (removed: bool)
        requires
            old(self).wf(),
        ensures
            final(self).wf(),
            final(self)@ == old(self)@.with_store(old(self)@.store.cancel(request_id)),
            removed == old(self)@.store.queued(request_id),
            !final(self)@.store.queued(request_id),
    {
        self.store.cancel(request_id)
    }

    /// Answers the agent's request for work. With an empty queue the answer
    /// is `NoContent` and nothing changes. Otherwise the oldest waiting
    /// request leaves the queue, counts as in flight, and is handed out as a
    /// document.
    pub fn pop_request(&mut self) -> (reply: PopReply)
        requires
            old(self).wf(),
        ensures
            final(self).wf(),
            final(self)@ == old(self)@.with_store(old(self)@.store.pop_next()),
            match old(self)@.store.head() {
                Some(request) => reply matches PopReply::Request(wire) && wire@
                    == request.proxied().encoded() && wire@.decoded() == Ok::<
                    RequestModel,
                    WireError,
                >(request.proxied()),
                None => reply is NoContent && final(self)@ == old(self)@,
            },
    {
        match self.store.pop_next() {
            Some((id, request)) => {
                let output = ProxiedRequest {
                    id,
                    method: request.method,
                    uri: request.uri,
                    version: request.version,
                    headers: ClientResponse::parse_header_map(&request.headers),
                    body: Base64Bytes(request.body),
                };
                PopReply::Request(output.serialize())
            },
            None => PopReply::NoContent,
        }
    }

    /// Takes in what the agent posted, at time `now`. `document` is the
    /// posted body read as a document, or `None` where it could not be read
    /// as one. Where the document stands for a response, the response is
    /// deposited under its request identifier, whether or not anybody waits
    /// for it; the reply is 200 with the identifier in dashed form as its
    /// body, and the caller that waits under that identifier is to be woken.
    /// Otherwise nothing changes, the reply is 400 and nobody is woken.
    pub fn push_response(&mut self, document: Option<WireResponse>, now: u64) -> (posted: Posted)
        requires
            old(self).wf(),
        ensures
            final(self).wf(),
            match posted_response(document) {
                Some(response) => {
                    &&& posted.reply@ == ReplyModel::accepted(response.request_id)
                    &&& posted.answered == Some(response.request_id)
                    &&& final(self)@ == old(self)@.with_store(
                        old(self)@.store.deposit(
                            response.request_id,
                            DeliveryModel::of(response),
                            now,
                        ),
                    )
                },
                None => {
                    &&& posted.reply@ == ReplyModel::bad_request()
                    &&& posted.answered is None
                    &&& final(self)@ == old(self)@
                },
            },
    {
        let wire = match document {
            Some(w) => w,
            None => {
                return Posted { reply: Reply::bad_request(), answered: None };
            },
        };
        let client_response = match ClientResponse::deserialize(&wire) {
            Ok(r) => r,
            Err(_) => {
                return Posted { reply: Reply::bad_request(), answered: None };
            },
        };
        let request_id = client_response.request_id;
        let response = ProxiedResponse::from_client(client_response);
        self.store.deposit(request_id, response, now);
        Posted { reply: Reply::accepted(request_id), answered: Some(request_id) }
    }

    /// Says where the caller that holds `ticket` stands at time `now`.
    /// If the response for its request is in the table, it is taken out and
    /// served. Otherwise, from the deadline on, the request is withdrawn and
    /// the caller gets the timeout reply. Otherwise nothing changes and the
    /// caller keeps waiting.
    pub fn poll(&mut self, ticket: &Ticket, now: u64) -> (progress: Progress)
        requires
            old(self).wf(),
        ensures
            final(self).wf(),
            match old(self)@.store.claimable(ticket.id) {
                Some(response) => {
                    &&& progress matches Progress::Ready(reply)
                    &&& reply@ == ReplyModel::serving(response)
                    &&& final(self)@ == old(self)@.with_store(old(self)@.store.claim(ticket.id))
                },
                None => if now >= ticket.deadline {
                    &&& progress matches Progress::TimedOut(reply)
                    &&& reply@ == ReplyModel::timeout()
                    &&& reply.status == 504
                    &&& final(self)@ == old(self)@.with_store(old(self)@.store.cancel(ticket.id))
                    &&& !final(self)@.store.queued(ticket.id)
                } else {
                    progress is Pending && final(self)@ == old(self)@
                },
            },
    {
        match self.store.claim(ticket.id) {
            Some(response) => Progress::Ready(Reply::serving(response)),
            None => {
                if now >= ticket.deadline {
                    self.store.cancel(ticket.id);
                    Progress::TimedOut(Reply::timeout())
                } else {
                    Progress::Pending
                }
            },
        }
    }

    /// Discards the responses that, at time `now`, have sat unclaimed for
    /// longer than the broker's grace period.
    pub fn discard_stale(&mut self, now: u64)
        requires
            old(self).wf(),
        ensures
            final(self).wf(),
            final(self)@ == old(self)@.with_store(
                old(self)@.store.collect(now, old(self)@.grace),
            ),
    {
        self.store.collect_stale(now, self.grace);
    }

    /// The number of requests that wait in the queue.
    pub fn queue_len(&self) -> (n: usize)
        ensures
            n == self@.store.queue.len(),
    {
        self.store.queue_len()
    }

    /// Whether the table holds a response for the request.
    pub fn has_response(&self, id: RequestId) -> (ready: bool)
        ensures
            ready == self@.store.ready.contains_key(id),
    {
        self.store.has_response(id)
    }
}

/// The response that a posted body stands for: `None` where the body is no
/// document, or where the document's identifier, a header value or the body
/// in it cannot be read.
pub open spec fn posted_response(document: Option<WireResponse>) -> Option<ResponseModel> {
    match document {
        Some(wire) => match wire@.decoded() {
            Ok(response) => Some(response),
            Err(_) => None,
        },
        None => None,
    }
}

impl ReplyModel {
    /// The reply to the agent for a response that was taken in: status 200,
    /// no headers, the request identifier in dashed form as the body.
    pub open spec fn accepted(request_id: u128) -> ReplyModel {
        ReplyModel {
            status: 200,
            headers: Seq::empty(),
            body: encode_utf8(hyphenated(request_id)),
        }
    }
}

impl Reply {
    /// The reply to the agent for a response that was taken in.
    pub fn accepted(request_id: RequestId) -> (reply: Reply)
        ensures
            reply@ == ReplyModel::accepted(request_id),
    {
        let text = request_id_to_text(request_id);
        Reply { status: 200, headers: HeaderMap::new(), body: str_bytes(text.as_str()) }
    }
}

impl PopReply {
    /// The status with which the answer is sent: 204 where no request waits,
    /// 200 with a request.
    pub fn status(&self) -> (code: u16)
        ensures
            code == if self is NoContent { 204u16 } else { 200u16 },
    {
        match self {
            PopReply::NoContent => 204,
            PopReply::Request(_) => 200,
        }
    }
}

} // verus!

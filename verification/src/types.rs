//! The messages that cross the tunnel, and their text forms.

use vstd::prelude::*;
use vstd::utf8::{decode_utf8, encode_utf8, is_ascii_chars, valid_utf8};
use crate::encoding::{
    ascii_text,
    header_value_ok,
    plain_name,
    base64_bytes,
    base64_text,
    decode_text,
    encode_bytes,
    hyphenated,
    parsed_request_id,
    request_id_from_text,
    request_id_to_text,
    str_from_utf8,
};
use crate::headers::{accepted_header, HeaderMap, HeaderModel};
use crate::text::slice_to_vec;

verus! {

/// The mathematical content of a [`RequestUri`].
pub struct UriModel {
    pub path: Seq<char>,
    pub query: Option<Seq<char>>,
    pub fragment: Option<Seq<char>>,
}

/// The target of a request, split at `?` and `#`.
pub struct RequestUri {
    pub path: String,
    pub query: Option<String>,
    pub fragment: Option<String>,
}

/// The text of an optional string.
pub open spec fn opt_text(s: Option<String>) -> Option<Seq<char>> {
    match s {
        Some(t) => Some(t@),
        None => None,
    }
}

impl View for RequestUri {
    type V = UriModel;

    open spec fn view(&self) -> UriModel {
        UriModel { path: self.path@, query: opt_text(self.query), fragment: opt_text(self.fragment) }
    }
}

impl UriModel {
    /// The target that a bare path stands for: no query, no fragment.
    pub open spec fn of_path(path: Seq<char>) -> UriModel {
        UriModel { path, query: None, fragment: None }
    }
}

impl RequestUri {
    /// Reads a bare string as a path, with neither query nor fragment.
    /// This cannot fail.
    pub fn from_str(s: &str) -> (uri: Result<RequestUri, void::Void>)
        ensures
            uri matches Ok(u) && u@ == UriModel::of_path(s@),
    {
        Ok(RequestUri { path: s.to_owned(), query: None, fragment: None })
    }

    /// A copy of the target.
    pub fn duplicate(&self) -> (copy: RequestUri)
        ensures
            copy@ == self@,
    {
        RequestUri {
            path: self.path.clone(),
            query: clone_opt_string(&self.query),
            fragment: clone_opt_string(&self.fragment),
        }
    }
}

/// A copy of an optional string.
fn clone_opt_string(s: &Option<String>) -> (copy: Option<String>)
    ensures
        opt_text(copy) == opt_text(*s),
{
    match s {
        Some(t) => Some(t.clone()),
        None => None,
    }
}

/// The two shapes in which a request's target arrives: a bare string, sent by
/// older peers, or the three parts.
pub enum WireUri {
    Text(String),
    Parts(RequestUri),
}

/// The mathematical content of a [`WireUri`].
pub enum WireUriModel {
    Text(Seq<char>),
    Parts(UriModel),
}

impl View for WireUri {
    type V = WireUriModel;

    open spec fn view(&self) -> WireUriModel {
        match self {
            WireUri::Text(t) => WireUriModel::Text(t@),
            WireUri::Parts(u) => WireUriModel::Parts(u@),
        }
    }
}

impl WireUriModel {
    /// The target that either shape stands for.
    pub open spec fn target(self) -> UriModel {
        match self {
            WireUriModel::Text(t) => UriModel::of_path(t),
            WireUriModel::Parts(u) => u,
        }
    }
}

/// Accepts a target in either shape: a bare string is read as a path, the
/// three parts are taken as they are.
pub fn string_or_struct(uri: WireUri) -> (target: RequestUri)
    ensures
        target@ == uri@.target(),
{
    match uri {
        WireUri::Text(t) => {
            match RequestUri::from_str(t.as_str()) {
                Ok(u) => u,
                Err(_) => RequestUri { path: t, query: None, fragment: None },
            }
        },
        WireUri::Parts(u) => u,
    }
}

/// A byte string that travels as base64 text.
pub struct Base64Bytes<T>(pub T);

impl Base64Bytes<Vec<u8>> {
    /// The bytes read as UTF-8 text.
    pub fn as_str(&self) -> (text: Result<&str, std::str::Utf8Error>)
        ensures
            text is Ok <==> valid_utf8(self.0@),
            text matches Ok(s) ==> s@ == decode_utf8(self.0@),
    {
        str_from_utf8(self.0.as_slice())
    }

    /// The base64 text of the bytes.
    pub fn serialize(&self) -> (text: String)
        ensures
            text@ == base64_text(self.0@),
            base64_bytes(text@) == Some(self.0@),
    {
        encode_bytes(&self.0)
    }
}

/// Why a document could not be read.
#[derive(Clone, Copy, Debug, PartialEq, Eq)]
pub enum WireError {
    /// The request identifier is not the text of an identifier.
    BadRequestId,
    /// A header value or the body is not valid base64.
    BadBase64,
}

/// Reads a base64 text back into bytes.
pub struct Base64Visitor<T>(pub std::marker::PhantomData<T>);

impl<T> Base64Visitor<T> {
    /// A reader; it holds no state.
    pub fn new() -> (visitor: Base64Visitor<T>) {
        Base64Visitor(std::marker::PhantomData)
    }
}

impl Base64Visitor<Vec<u8>> {
    /// The bytes that `v` stands for; `BadBase64` exactly where `v` is not
    /// valid base64.
    pub fn visit_str(self, v: &str) -> (bytes: Result<Vec<u8>, WireError>)
        ensures
            match bytes {
                Ok(b) => base64_bytes(v@) == Some(b@),
                Err(e) => e == WireError::BadBase64 && base64_bytes(v@) is None,
            },
    {
        match decode_text(v) {
            Some(b) => Ok(b),
            None => Err(WireError::BadBase64),
        }
    }
}

impl Base64Bytes<Vec<u8>> {
    /// Reads base64 text; `BadBase64` exactly where the text is not valid
    /// base64.
    pub fn deserialize(text: &str) -> (bytes: Result<Base64Bytes<Vec<u8>>, WireError>)
        ensures
            match bytes {
                Ok(b) => base64_bytes(text@) == Some(b.0@),
                Err(e) => e == WireError::BadBase64 && base64_bytes(text@) is None,
            },
    {
        match Base64Visitor::<Vec<u8>>::new().visit_str(text) {
            Ok(b) => Ok(Base64Bytes(b)),
            Err(e) => Err(e),
        }
    }
}

/// Identifies one public request from its arrival to its reply.
pub type RequestId = u128;

/// A header as it is carried: its name, and its value as opaque bytes.
pub type HeaderPair = (String, Base64Bytes<Vec<u8>>);

/// The headers of a message as they are carried, in order.
pub type HeaderTransportContainer = Vec<HeaderPair>;

/// A header as it stands in a document: its name and the base64 text of its
/// value.
pub type WireHeaderModel = (Seq<char>, Seq<char>);

/// The names and values of carried headers.
pub open spec fn pairs_model(pairs: Seq<HeaderPair>) -> Seq<HeaderModel> {
    Seq::new(pairs.len(), |i: int| (pairs[i].0@, pairs[i].1.0@))
}

/// The names and base64 texts of a document's headers.
pub open spec fn wire_pairs_model(pairs: Seq<(String, String)>) -> Seq<WireHeaderModel> {
    Seq::new(pairs.len(), |i: int| (pairs[i].0@, pairs[i].1@))
}

/// The headers of a document for carried headers: names kept, each value as
/// base64 text, order kept.
pub open spec fn encoded_headers(headers: Seq<HeaderModel>) -> Seq<WireHeaderModel> {
    Seq::new(headers.len(), |i: int| (headers[i].0, base64_text(headers[i].1)))
}

/// Whether every value among a document's headers is valid base64.
pub open spec fn headers_decodable(headers: Seq<WireHeaderModel>) -> bool {
    forall|i: int| 0 <= i < headers.len() ==> base64_bytes(#[trigger] headers[i].1) is Some
}

/// The carried headers that a document's headers stand for, where all of
/// them are decodable.
pub open spec fn decoded_headers(headers: Seq<WireHeaderModel>) -> Seq<HeaderModel> {
    Seq::new(headers.len(), |i: int| (headers[i].0, base64_bytes(headers[i].1).unwrap()))
}

/// The entries that a header list keeps of carried headers: those that
/// `http` accepts, in their order, names in normal form.
pub open spec fn accepted_headers(headers: Seq<HeaderModel>) -> Seq<HeaderModel>
    decreases headers.len(),
{
    if headers.len() == 0 {
        Seq::empty()
    } else {
        let before = accepted_headers(headers.drop_last());
        match accepted_header(vstd::utf8::encode_utf8(headers.last().0), headers.last().1) {
            Some(h) => before.push(h),
            None => before,
        }
    }
}

/// Whether a header is plain: its name is made of lower-case letters, digits
/// and hyphens, 1 to 64 of them, and its value holds no byte that a header
/// value may not hold.
pub open spec fn plain_header(header: HeaderModel) -> bool {
    &&& is_ascii_chars(header.0)
    &&& plain_name(encode_utf8(header.0))
    &&& header_value_ok(header.1)
}

/// Whether every one of the headers is plain.
pub open spec fn all_plain(headers: Seq<HeaderModel>) -> bool {
    forall|i: int| 0 <= i < headers.len() ==> plain_header(#[trigger] headers[i])
}

/// A text of ASCII characters is the text of its own bytes.
pub proof fn lemma_ascii_text_of_bytes(text: Seq<char>)
    requires
        is_ascii_chars(text),
    ensures
        ascii_text(encode_utf8(text)) == text,
{
    vstd::utf8::is_ascii_chars_encode_utf8(text);
    let bytes = encode_utf8(text);
    assert forall|i: int| 0 <= i < text.len() implies ascii_text(bytes)[i] == text[i] by {
        assert(text[i] as u8 == bytes[i]);
        assert('\0' <= text[i] <= '\u{7f}');
    }
    assert(ascii_text(bytes) =~= text);
}

/// Headers that are each accepted as they are, are all kept, in order.
pub proof fn lemma_accepted_as_they_are(headers: Seq<HeaderModel>)
    requires
        forall|i: int|
            0 <= i < headers.len() ==> accepted_header(
                encode_utf8((#[trigger] headers[i]).0),
                headers[i].1,
            ) == Some(headers[i]),
    ensures
        accepted_headers(headers) == headers,
    decreases headers.len(),
{
    if headers.len() > 0 {
        let front = headers.drop_last();
        assert forall|i: int| 0 <= i < front.len() implies accepted_header(
            encode_utf8((#[trigger] front[i]).0),
            front[i].1,
        ) == Some(front[i]) by {
            assert(front[i] == headers[i]);
        }
        lemma_accepted_as_they_are(front);
        assert(headers.last() == headers[headers.len() - 1]);
        assert(accepted_headers(headers) =~= headers);
    } else {
        assert(accepted_headers(headers) =~= headers);
    }
}

/// The status with which a response is served: the posted status where it
/// lies in 100..=599, and 502 otherwise.
pub open spec fn served_status(status: u16) -> u16 {
    if 100 <= status <= 599 {
        status
    } else {
        502
    }
}

/// Encodes carried headers for a document.
pub fn serialize_headers(headers: &HeaderTransportContainer) -> (wire: Vec<(String, String)>)
    ensures
        wire_pairs_model(wire@) == encoded_headers(pairs_model(headers@)),
        headers_decodable(wire_pairs_model(wire@)),
        decoded_headers(wire_pairs_model(wire@)) == pairs_model(headers@),
{
    let mut wire: Vec<(String, String)> = Vec::new();
    let mut i: usize = 0;
    while i < headers.len()
        invariant
            i <= headers.len(),
            wire@.len() == i,
            forall|j: int|
                0 <= j < i ==> {
                    &&& (#[trigger] wire@[j]).0@ == headers@[j].0@
                    &&& wire@[j].1@ == base64_text(headers@[j].1.0@)
                    &&& base64_bytes(wire@[j].1@) == Some(headers@[j].1.0@)
                },
        decreases headers.len() - i,
    {
        let name = headers[i].0.clone();
        let value = headers[i].1.serialize();
        wire.push((name, value));
        i = i + 1;
    }
    assert(wire_pairs_model(wire@) =~= encoded_headers(pairs_model(headers@)));
    assert(decoded_headers(wire_pairs_model(wire@)) =~= pairs_model(headers@));
    wire
}

/// Decodes a document's headers; `None` exactly where some value is not
/// valid base64.
pub fn deserialize_headers(wire: &Vec<(String, String)>) -> (headers: Option<
    HeaderTransportContainer,
>)
    ensures
        match headers {
            Some(h) => headers_decodable(wire_pairs_model(wire@)) && pairs_model(h@)
                == decoded_headers(wire_pairs_model(wire@)),
            None => !headers_decodable(wire_pairs_model(wire@)),
        },
{
    let mut headers: HeaderTransportContainer = Vec::new();
    let mut i: usize = 0;
    while i < wire.len()
        invariant
            i <= wire.len(),
            headers@.len() == i,
            forall|j: int|
                0 <= j < i ==> {
                    &&& (#[trigger] headers@[j]).0@ == wire@[j].0@
                    &&& base64_bytes(wire@[j].1@) == Some(headers@[j].1.0@)
                },
        decreases wire.len() - i,
    {
        match Base64Bytes::deserialize(wire[i].1.as_str()) {
            Ok(value) => {
                headers.push((wire[i].0.clone(), value));
            },
            Err(_) => {
                assert(base64_bytes(wire_pairs_model(wire@)[i as int].1) is None);
                return None;
            },
        }
        i = i + 1;
    }
    assert forall|j: int| 0 <= j < wire@.len() implies base64_bytes(
        #[trigger] wire_pairs_model(wire@)[j].1,
    ) is Some by {
        assert(base64_bytes(wire@[j].1@) == Some(headers@[j].1.0@));
    }
    assert(pairs_model(headers@) =~= decoded_headers(wire_pairs_model(wire@)));
    Some(headers)
}


/// The mathematical content of a [`ClientResponse`].
pub struct ResponseModel {
    pub request_id: u128,
    pub status: u16,
    pub headers: Seq<HeaderModel>,
    pub body: Seq<u8>,
}

/// The mathematical content of a [`WireResponse`].
pub struct WireResponseModel {
    pub request_id: Seq<char>,
    pub status: u16,
    pub headers: Seq<WireHeaderModel>,
    pub body: Seq<char>,
}

/// The response of the origin to one request, as the agent reports it.
pub struct ClientResponse {
    /// The request that this answers.
    pub request_id: RequestId,
    pub status: u16,
    pub headers: HeaderTransportContainer,
    pub body: Base64Bytes<Vec<u8>>,
}

/// A response as it stands in a document: every field text or number.
pub struct WireResponse {
    pub request_id: String,
    pub status: u16,
    pub headers: Vec<(String, String)>,
    pub body: String,
}

impl View for ClientResponse {
    type V = ResponseModel;

    open spec fn view(&self) -> ResponseModel {
        ResponseModel {
            request_id: self.request_id,
            status: self.status,
            headers: pairs_model(self.headers@),
            body: self.body.0@,
        }
    }
}

impl View for WireResponse {
    type V = WireResponseModel;

    open spec fn view(&self) -> WireResponseModel {
        WireResponseModel {
            request_id: self.request_id@,
            status: self.status,
            headers: wire_pairs_model(self.headers@),
            body: self.body@,
        }
    }
}

impl ResponseModel {
    /// The document for a response: the identifier in dashed form, the
    /// status as it is, header values and body as base64 text.
    pub open spec fn encoded(self) -> WireResponseModel {
        WireResponseModel {
            request_id: hyphenated(self.request_id),
            status: self.status,
            headers: encoded_headers(self.headers),
            body: base64_text(self.body),
        }
    }
}

impl WireResponseModel {
    /// The response that a document stands for, or why it stands for none:
    /// first the identifier is read, then the header values and the body.
    pub open spec fn decoded(self) -> Result<ResponseModel, WireError> {
        if parsed_request_id(self.request_id) is None {
            Err(WireError::BadRequestId)
        } else if !headers_decodable(self.headers) || base64_bytes(self.body) is None {
            Err(WireError::BadBase64)
        } else {
            Ok(
                ResponseModel {
                    request_id: parsed_request_id(self.request_id).unwrap(),
                    status: self.status,
                    headers: decoded_headers(self.headers),
                    body: base64_bytes(self.body).unwrap(),
                },
            )
        }
    }
}

impl ClientResponse {
    /// The header list of the response: the carried headers that `http`
    /// accepts, in their order; the others are left out. Plain headers are
    /// all kept.
    pub fn headers(&self) -> (map: HeaderMap)
        ensures
            map@ == accepted_headers(self@.headers),
            all_plain(self@.headers) ==> map@ == self@.headers,
    {
        Self::construct_header_map(&self.headers)
    }

    /// The status with which the response is served: the posted status where
    /// it lies in 100..=599, and 502 otherwise.
    pub fn status_code(&self) -> (code: u16)
        ensures
            code == served_status(self.status),
    {
        if 100 <= self.status && self.status <= 599 {
            self.status
        } else {
            502
        }
    }

    /// The headers of a list as they are carried: every entry, in order.
    pub fn parse_header_map(headers: &HeaderMap) -> (pairs: HeaderTransportContainer)
        ensures
            pairs_model(pairs@) == headers@,
    {
        let mut pairs: HeaderTransportContainer = Vec::new();
        let mut i: usize = 0;
        while i < headers.len()
            invariant
                i <= headers@.len(),
                pairs@.len() == i,
                forall|j: int|
                    0 <= j < i ==> (#[trigger] pairs@[j]).0@ == headers@[j].0 && pairs@[j].1.0@
                        == headers@[j].1,
            decreases headers@.len() - i,
        {
            let name = headers.name(i).to_owned();
            let value = slice_to_vec(headers.value(i));
            pairs.push((name, Base64Bytes(value)));
            i = i + 1;
        }
        assert(pairs_model(pairs@) =~= headers@);
        pairs
    }

    /// The header list for carried headers. A header whose name or value
    /// `http` refuses is left out; the others keep their order, and a name
    /// that occurs several times keeps all its values. Plain headers are
    /// never refused: where all are plain, the list holds them all as they
    /// are.
    pub fn construct_header_map(headers: &HeaderTransportContainer) -> (map: HeaderMap)
        ensures
            map@ == accepted_headers(pairs_model(headers@)),
            all_plain(pairs_model(headers@)) ==> map@ == pairs_model(headers@),
    {
        let mut map = HeaderMap::new();
        let mut i: usize = 0;
        let ghost all = pairs_model(headers@);
        assert(all.take(0) =~= Seq::<HeaderModel>::empty());
        while i < headers.len()
            invariant
                i <= headers.len(),
                all == pairs_model(headers@),
                map@ == accepted_headers(all.take(i as int)),
                forall|j: int|
                    0 <= j < i && plain_header(#[trigger] all[j]) ==> accepted_header(
                        encode_utf8(all[j].0),
                        all[j].1,
                    ) == Some(all[j]),
            decreases headers.len() - i,
        {
            let added = map.append(headers[i].0.as_str(), headers[i].1.0.as_slice());
            proof {
                let next = all.take(i as int + 1);
                assert(next.drop_last() =~= all.take(i as int));
                assert(next.last() == all[i as int]);
                if plain_header(all[i as int]) {
                    lemma_ascii_text_of_bytes(all[i as int].0);
                }
            }
            i = i + 1;
        }
        proof {
            assert(all.take(i as int) =~= all);
            if all_plain(all) {
                lemma_accepted_as_they_are(all);
            }
        }
        map
    }

    /// The document for the response.
    pub fn serialize(&self) -> (wire: WireResponse)
        ensures
            wire@ == self@.encoded(),
            wire@.decoded() == Ok::<ResponseModel, WireError>(self@),
    {
        let wire = WireResponse {
            request_id: request_id_to_text(self.request_id),
            status: self.status,
            headers: serialize_headers(&self.headers),
            body: self.body.serialize(),
        };
        wire
    }

    /// Reads a document. The identifier is read first, then the header
    /// values and the body; the first that cannot be read decides the error.
    pub fn deserialize(wire: &WireResponse) -> (response: Result<ClientResponse, WireError>)
        ensures
            match response {
                Ok(r) => wire@.decoded() == Ok::<ResponseModel, WireError>(r@),
                Err(e) => wire@.decoded() == Err::<ResponseModel, WireError>(e),
            },
    {
        let request_id = match request_id_from_text(wire.request_id.as_str()) {
            Ok(id) => id,
            Err(_) => {
                return Err(WireError::BadRequestId);
            },
        };
        let headers = match deserialize_headers(&wire.headers) {
            Some(h) => h,
            None => {
                return Err(WireError::BadBase64);
            },
        };
        let body = match Base64Bytes::deserialize(wire.body.as_str()) {
            Ok(b) => b,
            Err(e) => {
                return Err(e);
            },
        };
        Ok(ClientResponse { request_id, status: wire.status, headers, body })
    }
}

/// The mathematical content of a [`ProxiedRequest`].
pub struct RequestModel {
    pub method: Seq<char>,
    pub uri: UriModel,
    pub version: Seq<char>,
    pub headers: Seq<HeaderModel>,
    pub body: Seq<u8>,
    pub id: u128,
}

/// The mathematical content of a [`WireRequest`].
pub struct WireRequestModel {
    pub id: Seq<char>,
    pub method: Seq<char>,
    pub uri: WireUriModel,
    pub version: Seq<char>,
    pub headers: Seq<WireHeaderModel>,
    pub body: Seq<char>,
}

/// A public request as the broker hands it to the agent.
pub struct ProxiedRequest {
    pub method: String,
    pub uri: RequestUri,
    /// The protocol version as it was received, such as `HTTP/1.1`.
    pub version: String,
    pub headers: HeaderTransportContainer,
    pub body: Base64Bytes<Vec<u8>>,
    pub id: RequestId,
}

/// A request as it stands in a document: every field text.
pub struct WireRequest {
    pub id: String,
    pub method: String,
    pub uri: WireUri,
    pub version: String,
    pub headers: Vec<(String, String)>,
    pub body: String,
}

impl View for ProxiedRequest {
    type V = RequestModel;

    open spec fn view(&self) -> RequestModel {
        RequestModel {
            method: self.method@,
            uri: self.uri@,
            version: self.version@,
            headers: pairs_model(self.headers@),
            body: self.body.0@,
            id: self.id,
        }
    }
}

impl View for WireRequest {
    type V = WireRequestModel;

    open spec fn view(&self) -> WireRequestModel {
        WireRequestModel {
            id: self.id@,
            method: self.method@,
            uri: self.uri@,
            version: self.version@,
            headers: wire_pairs_model(self.headers@),
            body: self.body@,
        }
    }
}

impl RequestModel {
    /// The document for a request: the identifier in dashed form, the target
    /// in three parts, header values and body as base64 text.
    pub open spec fn encoded(self) -> WireRequestModel {
        WireRequestModel {
            id: hyphenated(self.id),
            method: self.method,
            uri: WireUriModel::Parts(self.uri),
            version: self.version,
            headers: encoded_headers(self.headers),
            body: base64_text(self.body),
        }
    }
}

impl WireRequestModel {
    /// The request that a document stands for, or why it stands for none:
    /// first the identifier is read, then the header values and the body.
    /// A target that is a bare string stands for that path.
    pub open spec fn decoded(self) -> Result<RequestModel, WireError> {
        if parsed_request_id(self.id) is None {
            Err(WireError::BadRequestId)
        } else if !headers_decodable(self.headers) || base64_bytes(self.body) is None {
            Err(WireError::BadBase64)
        } else {
            Ok(
                RequestModel {
                    method: self.method,
                    uri: self.uri.target(),
                    version: self.version,
                    headers: decoded_headers(self.headers),
                    body: base64_bytes(self.body).unwrap(),
                    id: parsed_request_id(self.id).unwrap(),
                },
            )
        }
    }
}

impl WireUri {
    /// A copy of the target, in the same shape.
    pub fn duplicate(&self) -> (copy: WireUri)
        ensures
            copy@ == self@,
    {
        match self {
            WireUri::Text(t) => WireUri::Text(t.clone()),
            WireUri::Parts(u) => WireUri::Parts(u.duplicate()),
        }
    }
}

impl ProxiedRequest {
    /// The document for the request. Reading the document gives the request
    /// back, whatever bytes its header values and its body hold.
    pub fn serialize(&self) -> (wire: WireRequest)
        ensures
            wire@ == self@.encoded(),
            wire@.decoded() == Ok::<RequestModel, WireError>(self@),
    {
        let wire = WireRequest {
            id: request_id_to_text(self.id),
            method: self.method.clone(),
            uri: WireUri::Parts(self.uri.duplicate()),
            version: self.version.clone(),
            headers: serialize_headers(&self.headers),
            body: self.body.serialize(),
        };
        wire
    }

    /// Reads a document. The identifier is read first, then the header
    /// values and the body; the first that cannot be read decides the error.
    pub fn deserialize(wire: &WireRequest) -> (request: Result<ProxiedRequest, WireError>)
        ensures
            match request {
                Ok(r) => wire@.decoded() == Ok::<RequestModel, WireError>(r@),
                Err(e) => wire@.decoded() == Err::<RequestModel, WireError>(e),
            },
    {
        let id = match request_id_from_text(wire.id.as_str()) {
            Ok(id) => id,
            Err(_) => {
                return Err(WireError::BadRequestId);
            },
        };
        let headers = match deserialize_headers(&wire.headers) {
            Some(h) => h,
            None => {
                return Err(WireError::BadBase64);
            },
        };
        let body = match Base64Bytes::deserialize(wire.body.as_str()) {
            Ok(b) => b,
            Err(e) => {
                return Err(e);
            },
        };
        Ok(
            ProxiedRequest {
                method: wire.method.clone(),
                uri: string_or_struct(wire.uri.duplicate()),
                version: wire.version.clone(),
                headers,
                body,
                id,
            },
        )
    }
}

} // verus!

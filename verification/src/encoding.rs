//! Text forms of opaque values: base64 for byte strings, the dashed form
//! for request identifiers, and the checks on header names and values.
//!
//! The work itself is done by the crates `base64`, `uuid` and `http` (which
//! `hyper` hands on). The functions marked `external_body` below call them
//! and state what is taken on trust about each call; everything else in the
//! library is proved from these statements.

use vstd::prelude::*;
use vstd::utf8::{decode_utf8, valid_utf8};
use base64::Engine;

verus! {

/// The base64 text (standard alphabet, padded) of a byte string.
pub uninterp spec fn base64_text(bytes: Seq<u8>) -> Seq<char>;

/// The byte string that a base64 text (standard alphabet, canonical padding)
/// stands for, or `None` where the text is not valid base64.
pub uninterp spec fn base64_bytes(text: Seq<char>) -> Option<Seq<u8>>;

/// The 128-bit value that a request identifier's text stands for, in any of
/// the text forms that `uuid` reads, or `None` where the text is none of them.
pub uninterp spec fn parsed_request_id(text: Seq<char>) -> Option<u128>;

/// The header name, in its normal form, that a byte string spells, or `None`
/// where it spells none.
pub uninterp spec fn normal_header_name(bytes: Seq<u8>) -> Option<Seq<char>>;

#[verifier::external_type_specification]
#[verifier::external_body]
pub struct ExDecodeError(base64::DecodeError);

#[verifier::external_type_specification]
#[verifier::external_body]
pub struct ExUuidError(uuid::Error);

#[verifier::external_type_specification]
#[verifier::external_body]
pub struct ExInvalidHeaderName(hyper::header::InvalidHeaderName);

#[verifier::external_type_specification]
#[verifier::external_body]
pub struct ExInvalidHeaderValue(hyper::header::InvalidHeaderValue);

#[verifier::external_type_specification]
#[verifier::external_body]
pub struct ExUtf8Error(std::str::Utf8Error);

#[verifier::external_type_specification]
#[verifier::external_body]
pub struct ExVoid(void::Void);

/// The lower-case hexadecimal digit for a value below sixteen.
pub open spec fn hex_digit(value: int) -> char {
    if value < 10 {
        (48 + value) as u8 as char
    } else {
        (87 + value) as u8 as char
    }
}

/// The hexadecimal digit of `id` at place `k`, counted from the most
/// significant of its 32 digits.
pub open spec fn id_digit(id: u128, k: int) -> int {
    ((id >> ((4 * (31 - k)) as u128)) & 0xf) as int
}

/// The canonical dashed form of an identifier: 32 lower-case hexadecimal
/// digits, most significant first, in groups of 8, 4, 4, 4 and 12.
pub open spec fn hyphenated(id: u128) -> Seq<char> {
    Seq::new(
        36,
        |i: int|
            if i == 8 || i == 13 || i == 18 || i == 23 {
                '-'
            } else if i < 8 {
                hex_digit(id_digit(id, i))
            } else if i < 13 {
                hex_digit(id_digit(id, i - 1))
            } else if i < 18 {
                hex_digit(id_digit(id, i - 2))
            } else if i < 23 {
                hex_digit(id_digit(id, i - 3))
            } else {
                hex_digit(id_digit(id, i - 4))
            },
    )
}

/// Whether a byte is a lower-case letter, a digit or a hyphen.
pub open spec fn plain_name_byte(b: u8) -> bool {
    97 <= b <= 122 || 48 <= b <= 57 || b == 45
}

/// Whether a byte string is a plain name: 1 to 64 bytes, each of them a
/// lower-case letter, a digit or a hyphen.
pub open spec fn plain_name(bytes: Seq<u8>) -> bool {
    &&& 1 <= bytes.len() <= 64
    &&& forall|i: int| 0 <= i < bytes.len() ==> plain_name_byte(#[trigger] bytes[i])
}

/// The text whose characters are the given ASCII bytes.
pub open spec fn ascii_text(bytes: Seq<u8>) -> Seq<char> {
    Seq::new(bytes.len(), |i: int| bytes[i] as char)
}

/// Whether `http` accepts a byte in a header value: visible ASCII, a space,
/// a tab, or any byte of 128 and above.
pub open spec fn header_value_byte(b: u8) -> bool {
    b >= 32 && b != 127 || b == 9
}

/// Whether `http` accepts a byte string as a header value.
pub open spec fn header_value_ok(bytes: Seq<u8>) -> bool {
    forall|i: int| 0 <= i < bytes.len() ==> header_value_byte(#[trigger] bytes[i])
}

/// Calls `base64::Engine::encode` on the `STANDARD` engine.
///
/// Trusted: the result is the padded standard-alphabet encoding of `bytes`,
/// and decoding that text with the same engine gives `bytes` back. A slice
/// holds at most `isize::MAX` bytes, so the length of its encoding fits in
/// `usize` and the crate's overflow check cannot fire.
#[verifier::external_body]
pub(crate) fn base64_encode(bytes: &[u8]) -> (text: String)
    ensures
        text@ == base64_text(bytes@),
        base64_bytes(text@) == Some(bytes@),
{
    base64::engine::general_purpose::STANDARD.encode(bytes)
}

/// Calls `base64::Engine::decode` on the `STANDARD` engine.
///
/// Trusted: the call succeeds exactly on the texts that are valid base64, and
/// then returns the bytes they stand for.
#[verifier::external_body]
pub(crate) fn base64_decode(text: &str) -> (decoded: Result<Vec<u8>, base64::DecodeError>)
    ensures
        decoded matches Ok(bytes) ==> base64_bytes(text@) == Some(bytes@),
        decoded is Err ==> base64_bytes(text@) is None,
{
    base64::engine::general_purpose::STANDARD.decode(text)
}

/// Calls `uuid::Uuid::new_v4`, which draws on the operating system's random
/// source and ends the process where that source fails.
///
/// Trusted: the identifier carries version 4 and the RFC 4122 variant.
/// Nothing is claimed about the other bits.
#[verifier::external_body]
pub(crate) fn random_request_id() -> (id: u128)
    ensures
        (id >> 76) & 0xf == 4,
        (id >> 62) & 0x3 == 2,
{
    uuid::Uuid::new_v4().as_u128()
}

/// Calls `uuid::Uuid::to_hyphenated` on the identifier and formats it.
///
/// Trusted: the text is the canonical dashed form, and `uuid` parses that
/// text back to the same identifier.
#[verifier::external_body]
pub(crate) fn request_id_to_text(id: u128) -> (text: String)
    ensures
        text@ == hyphenated(id),
        parsed_request_id(text@) == Some(id),
{
    uuid::Uuid::from_u128(id).to_hyphenated().to_string()
}

/// Calls `uuid::Uuid::parse_str`.
///
/// Trusted: the call succeeds exactly on the texts that stand for an
/// identifier, and then returns it.
#[verifier::external_body]
pub(crate) fn request_id_from_text(text: &str) -> (id: Result<u128, uuid::Error>)
    ensures
        id matches Ok(v) ==> parsed_request_id(text@) == Some(v),
        id is Err ==> parsed_request_id(text@) is None,
{
    match uuid::Uuid::parse_str(text) {
        Ok(u) => Ok(u.as_u128()),
        Err(e) => Err(e),
    }
}

/// Calls `http::header::HeaderName::from_bytes`.
///
/// Trusted: the call succeeds exactly on the byte strings that spell a header
/// name, and then returns the name in its normal form. A plain name, of
/// lower-case letters, digits and hyphens, is accepted and is its own normal
/// form.
#[verifier::external_body]
pub(crate) fn header_name_from_bytes(src: &[u8]) -> (name: Result<
    String,
    hyper::header::InvalidHeaderName,
>)
    ensures
        name matches Ok(n) ==> normal_header_name(src@) == Some(n@),
        name is Err ==> normal_header_name(src@) is None,
        plain_name(src@) ==> name is Ok,
        name matches Ok(n) ==> (plain_name(src@) ==> n@ == ascii_text(src@)),
{
    match hyper::header::HeaderName::from_bytes(src) {
        Ok(n) => Ok(n.as_str().to_owned()),
        Err(e) => Err(e),
    }
}

/// Calls `http::header::HeaderValue::from_bytes`.
///
/// Trusted: the call succeeds exactly where every byte is one that a header
/// value may hold, and the value then holds the same bytes.
#[verifier::external_body]
pub(crate) fn header_value_from_bytes(src: &[u8]) -> (value: Result<
    Vec<u8>,
    hyper::header::InvalidHeaderValue,
>)
    ensures
        value is Ok <==> header_value_ok(src@),
        value matches Ok(v) ==> v@ == src@,
{
    match hyper::header::HeaderValue::from_bytes(src) {
        Ok(v) => Ok(v.as_bytes().to_vec()),
        Err(e) => Err(e),
    }
}

/// Calls `std::str::from_utf8`.
///
/// Trusted: the call succeeds exactly on valid UTF-8, and the string it
/// returns is the text that the bytes encode.
#[verifier::external_body]
pub(crate) fn str_from_utf8(bytes: &[u8]) -> (text: Result<&str, std::str::Utf8Error>)
    ensures
        text is Ok <==> valid_utf8(bytes@),
        text matches Ok(s) ==> s@ == decode_utf8(bytes@),
{
    std::str::from_utf8(bytes)
}

/// Encodes a byte string as base64 text.
pub fn encode_bytes(bytes: &Vec<u8>) -> (text: String)
    ensures
        text@ == base64_text(bytes@),
        base64_bytes(text@) == Some(bytes@),
{
    base64_encode(bytes.as_slice())
}

/// Decodes base64 text; `None` where the text is not valid base64.
pub fn decode_text(text: &str) -> (bytes: Option<Vec<u8>>)
    ensures
        match bytes {
            Some(b) => base64_bytes(text@) == Some(b@),
            None => base64_bytes(text@) is None,
        },
{
    match base64_decode(text) {
        Ok(b) => Some(b),
        Err(_) => None,
    }
}

} // verus!

//! What requests and responses share: the fixed header names, the token
//! grammar, base64, and the reading of a content type.

use vstd::prelude::*;
use vstd::slice::slice_to_vec;
use vstd::utf8::*;
use crate::headers::{
    first_value, header_groups, header_map_get, is_header_name, is_visible_byte, is_visible_value,
    Groups,
};
use crate::text::{
    ascii_bytes, ascii_chars, ascii_string, check_token_byte, has_prefix, is_alphanumeric_byte,
    is_token_char, lemma_char_range, lower_text, starts_with, strip_prefix,
};
use crate::{Error, ErrorView};

verus! {

/// The header that names the version of the protocol.
pub const CONNECT_PROTOCOL_VERSION: &'static str = "connect-protocol-version";

/// The one version of the protocol.
pub const PROTOCOL_VERSION_1: &'static str = "1";

/// The header that carries the timeout of a call, in milliseconds.
pub const CONNECT_TIMEOUT_MS: &'static str = "connect-timeout-ms";

/// The header that names the encoding of the messages of a stream.
pub const CONNECT_CONTENT_ENCODING: &'static str = "connect-content-encoding";

/// The header that names an encoding accepted for the messages of a stream.
pub const CONNECT_ACCEPT_ENCODING: &'static str = "connect-accept-encoding";

/// The content encoding that changes nothing.
pub const CONTENT_ENCODING_IDENTITY: &'static str = "identity";

/// The header that names the content type.
pub const CONTENT_TYPE: &'static str = "content-type";

/// The header that names the encoding of a unary body.
pub const CONTENT_ENCODING: &'static str = "content-encoding";

/// The header that names an encoding accepted for a unary body.
pub const ACCEPT_ENCODING: &'static str = "accept-encoding";

/// What stands before the codec in the content type of a unary call.
pub const CONTENT_TYPE_PREFIX: &'static str = "application/";

/// What stands before the codec in the content type of a streaming call.
pub const STREAMING_CONTENT_TYPE_PREFIX: &'static str = "application/connect+";

/// What marks the subtype of a streaming content type.
pub const STREAMING_CONTENT_SUBTYPE_PREFIX: &'static str = "connect+";

/// The fixed header names are header names.
pub proof fn lemma_fixed_names()
    ensures
        is_header_name(CONNECT_PROTOCOL_VERSION@),
        is_header_name(CONNECT_TIMEOUT_MS@),
        is_header_name(CONNECT_CONTENT_ENCODING@),
        is_header_name(CONNECT_ACCEPT_ENCODING@),
        is_header_name(CONTENT_TYPE@),
        is_header_name(CONTENT_ENCODING@),
        is_header_name(ACCEPT_ENCODING@),
{
    reveal_strlit("connect-protocol-version");
    reveal_strlit("connect-timeout-ms");
    reveal_strlit("connect-content-encoding");
    reveal_strlit("connect-accept-encoding");
    reveal_strlit("content-type");
    reveal_strlit("content-encoding");
    reveal_strlit("accept-encoding");
    assert(lower_text(CONNECT_PROTOCOL_VERSION@) =~= CONNECT_PROTOCOL_VERSION@);
    assert(lower_text(CONNECT_TIMEOUT_MS@) =~= CONNECT_TIMEOUT_MS@);
    assert(lower_text(CONNECT_CONTENT_ENCODING@) =~= CONNECT_CONTENT_ENCODING@);
    assert(lower_text(CONNECT_ACCEPT_ENCODING@) =~= CONNECT_ACCEPT_ENCODING@);
    assert(lower_text(CONTENT_TYPE@) =~= CONTENT_TYPE@);
    assert(lower_text(CONTENT_ENCODING@) =~= CONTENT_ENCODING@);
    assert(lower_text(ACCEPT_ENCODING@) =~= ACCEPT_ENCODING@);
}

#[verifier::external_type_specification]
#[verifier::external_body]
pub struct ExDecodeError(base64::DecodeError);

/// The base64 text of some bytes: standard alphabet, no padding.
pub uninterp spec fn base64_text(bytes: Seq<u8>) -> Seq<char>;

/// The bytes that a base64 text stands for (standard alphabet, no
/// padding), if it is one.
pub uninterp spec fn base64_bytes(text: Seq<u8>) -> Option<Seq<u8>>;

/// A character of the standard base64 alphabet.
pub open spec fn is_base64_char(c: char) -> bool {
    c <= '\u{7f}' && (is_alphanumeric_byte(c as u8) || c == '+' || c == '/')
}

/// `Engine::encode` of the engine `STANDARD_NO_PAD`: the text is made of
/// the standard alphabet alone, and decoding it gives the bytes back.
#[verifier::external_body]
fn standard_encode(input: &[u8]) -> (r: String)
    ensures
        r@ == base64_text(input@),
        forall|i: int| 0 <= i < r@.len() ==> is_base64_char(#[trigger] r@[i]),
        base64_bytes(ascii_bytes(r@)) == Some(input@),
{
    base64::Engine::encode(&base64::prelude::BASE64_STANDARD_NO_PAD, input)
}

/// `Engine::decode` of the engine `STANDARD_NO_PAD`: the bytes that the
/// text stands for, or why it stands for none.
#[verifier::external_body]
fn standard_decode(text: &[u8]) -> (r: Result<Vec<u8>, base64::DecodeError>)
    ensures
        r is Ok <==> base64_bytes(text@) is Some,
        r matches Ok(b) ==> base64_bytes(text@) == Some(b@),
{
    base64::Engine::decode(&base64::prelude::BASE64_STANDARD_NO_PAD, text)
}

/// Encodes bytes as unpadded base64 in the standard alphabet.
pub fn base64_encode(input: &[u8]) -> (r: String)
    ensures
        r@ == base64_text(input@),
        forall|i: int| 0 <= i < r@.len() ==> is_base64_char(#[trigger] r@[i]),
        base64_bytes(ascii_bytes(r@)) == Some(input@),
{
    standard_encode(input)
}

/// Decodes unpadded base64 in the standard alphabet.
pub fn base64_decode(b64: &[u8]) -> (r: Result<Vec<u8>, Error>)
    ensures
        match r {
            Ok(bytes) => base64_bytes(b64@) == Some(bytes@),
            Err(e) => base64_bytes(b64@) is None && e@ == ErrorView::Base64DecodeError,
        },
{
    match standard_decode(b64) {
        Ok(bytes) => Ok(bytes),
        Err(e) => Err(Error::Base64DecodeError(e)),
    }
}

/// The base64 text of some bytes: URL-safe alphabet, no padding.
pub uninterp spec fn base64url_text(bytes: Seq<u8>) -> Seq<char>;

/// The bytes that a base64 text stands for (URL-safe alphabet, no
/// padding), if it is one.
pub uninterp spec fn base64url_bytes(text: Seq<u8>) -> Option<Seq<u8>>;

/// A character of the URL-safe base64 alphabet.
pub open spec fn is_base64url_char(c: char) -> bool {
    c <= '\u{7f}' && (is_alphanumeric_byte(c as u8) || c == '-' || c == '_')
}

/// `Engine::encode` of the engine `URL_SAFE_NO_PAD`: the text is made of
/// the URL-safe alphabet alone, and decoding it gives the bytes back.
#[verifier::external_body]
pub(crate) fn url_safe_encode(input: &[u8]) -> (r: String)
    ensures
        r@ == base64url_text(input@),
        forall|i: int| 0 <= i < r@.len() ==> is_base64url_char(#[trigger] r@[i]),
        base64url_bytes(ascii_bytes(r@)) == Some(input@),
{
    base64::Engine::encode(&base64::prelude::BASE64_URL_SAFE_NO_PAD, input)
}

/// `Engine::decode` of the engine `URL_SAFE_NO_PAD`: the bytes that the
/// text stands for, or why it stands for none.
#[verifier::external_body]
pub(crate) fn url_safe_decode(text: &[u8]) -> (r: Result<Vec<u8>, base64::DecodeError>)
    ensures
        r is Ok <==> base64url_bytes(text@) is Some,
        r matches Ok(b) ==> base64url_bytes(text@) == Some(b@),
{
    base64::Engine::decode(&base64::prelude::BASE64_URL_SAFE_NO_PAD, text)
}

/// A non-empty text of token characters.
pub open spec fn is_http_token(s: Seq<char>) -> bool {
    s.len() > 0 && forall|i: int| 0 <= i < s.len() ==> is_token_char(#[trigger] s[i])
}

/// Whether `s` is an HTTP token: not empty, and made of letters, digits
/// and ``!#$%&'*+-.^_`|~`` alone.
pub fn is_valid_http_token(s: &str) -> (r: bool)
    ensures
        r == is_http_token(s@),
{
    if !s.is_ascii() {
        proof {
            let k = choose|k: int| 0 <= k < s@.len() && !('\0' <= #[trigger] s@[k] <= '\u{7f}');
            lemma_char_range(s@[k]);
        }
        return false;
    }

    let bytes = s.as_bytes();
    if bytes.len() == 0 {
        return false;
    }
    let mut i: usize = 0;
    while i < bytes.len()
        invariant
            i <= bytes.len(),
            bytes@ == ascii_bytes(s@),
            is_ascii_chars(s@),
            forall|j: int| 0 <= j < i ==> is_token_char(#[trigger] s@[j]),
        decreases bytes.len() - i,
    {
        if !check_token_byte(bytes[i]) {
            return false;
        }
        i += 1;
    }
    true
}

/// The mathematical content of a text or an error.
pub open spec fn text_result(r: Result<String, Error>) -> Result<Seq<char>, ErrorView> {
    match r {
        Ok(s) => Ok(s@),
        Err(e) => Err(e@),
    }
}

/// The mathematical content of an optional text.
pub open spec fn text_option(r: Option<String>) -> Option<Seq<char>> {
    match r {
        Some(s) => Some(s@),
        None => None,
    }
}

/// A header value read as text: the characters that its bytes spell, where
/// each byte is a tab or visible ASCII.
pub open spec fn value_text(value: Seq<u8>) -> Option<Seq<char>> {
    if is_visible_value(value) {
        Some(ascii_chars(value))
    } else {
        None
    }
}

/// Reads a header value as text.
pub fn header_text(value: &[u8]) -> (r: Option<String>)
    ensures
        text_option(r) == value_text(value@),
{
    let mut i: usize = 0;
    while i < value.len()
        invariant
            i <= value.len(),
            forall|j: int| 0 <= j < i ==> is_visible_byte(#[trigger] value@[j]),
        decreases value.len() - i,
    {
        let b: u8 = value[i];
        if !((32 <= b && b < 127) || b == 9) {
            return None;
        }
        i += 1;
    }
    Some(ascii_string(slice_to_vec(value)))
}

/// The first value under a fixed header name, read as text.
pub open spec fn header_text_of(groups: Groups, name: Seq<char>) -> Option<Seq<char>> {
    match first_value(groups, name) {
        Some(v) => value_text(v),
        None => None,
    }
}

/// An invalid-request error.
pub open spec fn invalid_request(msg: Seq<char>) -> ErrorView {
    ErrorView::InvalidRequest(msg)
}

/// The content type that a header map gives.
pub open spec fn content_type_of(groups: Groups) -> Result<Seq<char>, ErrorView> {
    match first_value(groups, CONTENT_TYPE@) {
        None => Err(invalid_request("missing content-type"@)),
        Some(v) => match value_text(v) {
            Some(t) => Ok(t),
            None => Err(invalid_request("invalid content-type"@)),
        },
    }
}

/// The message codec that the content type of a unary call names: what
/// follows `application/`, which may not start with `connect+`.
pub open spec fn unary_codec_of(groups: Groups) -> Result<Seq<char>, ErrorView> {
    match content_type_of(groups) {
        Err(e) => Err(e),
        Ok(t) => if !has_prefix(t, CONTENT_TYPE_PREFIX@) {
            Err(invalid_request("content-type must start with 'application/'"@))
        } else if has_prefix(
            t.skip(CONTENT_TYPE_PREFIX@.len() as int),
            STREAMING_CONTENT_SUBTYPE_PREFIX@,
        ) {
            Err(invalid_request("unary request with streaming content-type"@))
        } else {
            Ok(t.skip(CONTENT_TYPE_PREFIX@.len() as int))
        },
    }
}

/// The message codec that the content type of a streaming call names: what
/// follows `application/connect+`.
pub open spec fn streaming_codec_of(groups: Groups) -> Result<Seq<char>, ErrorView> {
    match content_type_of(groups) {
        Err(e) => Err(e),
        Ok(t) => if has_prefix(t, STREAMING_CONTENT_TYPE_PREFIX@) {
            Ok(t.skip(STREAMING_CONTENT_TYPE_PREFIX@.len() as int))
        } else {
            Err(
                invalid_request(
                    "streaming content-type must start with 'application/connect+'"@,
                ),
            )
        },
    }
}

/// Reads the content type of a header map.
fn content_type(headers: &http::HeaderMap) -> (r: Result<String, Error>)
    ensures
        text_result(r) == content_type_of(header_groups(*headers)),
{
    proof {
        lemma_fixed_names();
    }
    match header_map_get(headers, CONTENT_TYPE) {
        None => Err(Error::invalid_request("missing content-type")),
        Some(v) => match header_text(v.as_slice()) {
            Some(t) => Ok(t),
            None => Err(Error::invalid_request("invalid content-type")),
        },
    }
}

/// Reads the message codec of a unary request or response from its
/// content type.
pub fn unary_message_codec(headers: &http::HeaderMap) -> (r: Result<String, Error>)
    ensures
        text_result(r) == unary_codec_of(header_groups(*headers)),
{
    let t = content_type(headers)?;
    match strip_prefix(t.as_str(), CONTENT_TYPE_PREFIX) {
        None => Err(Error::invalid_request("content-type must start with 'application/'")),
        Some(codec) => {
            if starts_with(codec, STREAMING_CONTENT_SUBTYPE_PREFIX) {
                Err(Error::invalid_request("unary request with streaming content-type"))
            } else {
                Ok(codec.to_owned())
            }
        },
    }
}

/// Reads the message codec of a streaming request or response from its
/// content type.
pub fn streaming_message_codec(headers: &http::HeaderMap) -> (r: Result<String, Error>)
    ensures
        text_result(r) == streaming_codec_of(header_groups(*headers)),
{
    let t = content_type(headers)?;
    match strip_prefix(t.as_str(), STREAMING_CONTENT_TYPE_PREFIX) {
        Some(codec) => Ok(codec.to_owned()),
        None => Err(
            Error::invalid_request("streaming content-type must start with 'application/connect+'"),
        ),
    }
}

} // verus!

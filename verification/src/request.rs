//! Requests: the three shapes of a Connect call on the wire, and what can
//! be read from each.

use vstd::prelude::*;
use vstd::utf8::encode_utf8;
use crate::common::{
    base64url_bytes, header_text, header_text_of, invalid_request, lemma_fixed_names,
    streaming_codec_of, streaming_message_codec, text_option, text_result, unary_codec_of,
    unary_message_codec, url_safe_decode, ACCEPT_ENCODING, CONNECT_ACCEPT_ENCODING,
    CONNECT_CONTENT_ENCODING, CONNECT_PROTOCOL_VERSION, CONNECT_TIMEOUT_MS, CONTENT_ENCODING,
    CONTENT_TYPE, PROTOCOL_VERSION_1, STREAMING_CONTENT_TYPE_PREFIX,
};
use crate::headers::{
    bytes_list, header_groups, header_map_get, header_map_get_all, is_header_name, values_of,
    Groups,
};
use crate::metadata::{text_entry_list, text_list, texts_of};
use crate::query::{form_pairs, parse_form, percent_decode_utf8, percent_decoded};
use crate::text::{
    has_prefix, join, parse_u64, parsed_u64, quoted, quoted_text, rsplit_once, split_at_last,
    starts_with, str_eq, strip_prefix,
};
use crate::uri::{Uri, UriView};
use crate::{Error, ErrorView};

pub mod builder;

verus! {

/// The method of an HTTP request, as far as the protocol tells methods
/// apart.
#[derive(Debug, PartialEq, Eq)]
pub enum Method {
    Get,
    Post,
    Other(String),
}

/// An HTTP request as the protocol reads it.
#[derive(Debug)]
pub struct HttpRequest<T> {
    pub method: Method,
    pub uri: Uri,
    pub headers: http::HeaderMap,
    pub body: T,
}

/// The shape of a request.
pub ghost enum RequestKind {
    Unary,
    Streaming,
    UnaryGet,
}

/// What the protocol reads from a request.
pub ghost struct RequestView {
    pub kind: RequestKind,
    pub uri: UriView,
    pub headers: Groups,
    /// The names and values of the query, in order; read for unary GET
    /// requests only.
    pub query: Seq<(Seq<char>, Seq<char>)>,
}

/// The value of a query parameter: that of its last occurrence.
pub open spec fn query_value(query: Seq<(Seq<char>, Seq<char>)>, name: Seq<char>) -> Option<
    Seq<char>,
>
    decreases query.len(),
{
    if query.len() == 0 {
        None
    } else if query.last().0 == name {
        Some(query.last().1)
    } else {
        query_value(query.drop_last(), name)
    }
}

/// The protocol version that a request names: a header, or for unary GET
/// what follows `v` in the `connect` parameter.
pub open spec fn protocol_version_of(req: RequestView) -> Option<Seq<char>> {
    match req.kind {
        RequestKind::UnaryGet => match query_value(req.query, "connect"@) {
            Some(v) => if has_prefix(v, "v"@) {
                Some(v.skip(1))
            } else {
                None
            },
            None => None,
        },
        _ => header_text_of(req.headers, CONNECT_PROTOCOL_VERSION@),
    }
}

/// The message codec of a request, or why it has none.
pub open spec fn message_codec_of(req: RequestView) -> Result<Seq<char>, ErrorView> {
    match req.kind {
        RequestKind::Unary => unary_codec_of(req.headers),
        RequestKind::Streaming => streaming_codec_of(req.headers),
        RequestKind::UnaryGet => match query_value(req.query, "encoding"@) {
            Some(codec) => Ok(codec),
            None => Err(invalid_request("missing 'encoding' param"@)),
        },
    }
}

/// The timeout of a request in milliseconds.
pub open spec fn timeout_of(req: RequestView) -> Option<u64> {
    match header_text_of(req.headers, CONNECT_TIMEOUT_MS@) {
        Some(t) => parsed_u64(t),
        None => None,
    }
}

/// The content encoding of a request.
pub open spec fn content_encoding_of(req: RequestView) -> Option<Seq<char>> {
    match req.kind {
        RequestKind::Unary => header_text_of(req.headers, CONTENT_ENCODING@),
        RequestKind::Streaming => header_text_of(req.headers, CONNECT_CONTENT_ENCODING@),
        RequestKind::UnaryGet => query_value(req.query, "compression"@),
    }
}

/// The encodings that a request accepts, in order.
pub open spec fn accept_encoding_of(req: RequestView) -> Seq<Seq<char>> {
    match req.kind {
        RequestKind::Streaming => texts_of(values_of(req.headers, CONNECT_ACCEPT_ENCODING@)),
        _ => texts_of(values_of(req.headers, ACCEPT_ENCODING@)),
    }
}

/// The routing prefix, the service and the method that a path names: the
/// path cut at its last two slashes.
pub open spec fn rpc_parts_of(path: Seq<char>) -> Option<(Seq<char>, Seq<char>, Seq<char>)> {
    match split_at_last(path, '/') {
        Some((prefix, method)) => match split_at_last(prefix, '/') {
            Some((routing_prefix, service)) => Some((routing_prefix, service, method)),
            None => None,
        },
        None => None,
    }
}

/// The error for a protocol version other than 1.
pub open spec fn unknown_version_error(version: Seq<char>) -> ErrorView {
    invalid_request("unknown connect-protocol-version "@ + quoted_text(version))
}

/// Whether a request is valid: a protocol version, if named, is `1`; the
/// request has a message codec; a unary GET request has a `message`
/// parameter. The first failure is reported.
pub open spec fn validation_of(req: RequestView) -> Result<(), ErrorView> {
    match protocol_version_of(req) {
        Some(v) if v != PROTOCOL_VERSION_1@ => Err(unknown_version_error(v)),
        _ => match message_codec_of(req) {
            Err(e) => Err(e),
            Ok(_) => match req.kind {
                RequestKind::UnaryGet => if query_value(req.query, "message"@) is None {
                    Err(invalid_request("missing 'message' param"@))
                } else {
                    Ok(())
                },
                _ => Ok(()),
            },
        },
    }
}

/// The mathematical content of a validation result.
pub open spec fn unit_result(r: Result<(), Error>) -> Result<(), ErrorView> {
    match r {
        Ok(_) => Ok(()),
        Err(e) => Err(e@),
    }
}

/// The text of an optional string slice.
pub open spec fn slice_option(s: Option<&str>) -> Option<Seq<char>> {
    match s {
        Some(t) => Some(t@),
        None => None,
    }
}

/// A Connect request.
pub trait ConnectRequest {
    /// What the protocol reads from this request.
    spec fn parts(&self) -> RequestView;

    /// Returns the connect protocol version.
    fn connect_protocol_version(&self) -> (r: Option<String>)
        ensures
            text_option(r) == protocol_version_of(self.parts()),
    ;

    /// Returns the URI scheme.
    fn scheme(&self) -> (r: Option<&str>)
        ensures
            slice_option(r) == self.parts().uri.scheme,
    ;

    /// Returns the URI authority.
    fn authority(&self) -> (r: Option<&str>)
        ensures
            slice_option(r) == self.parts().uri.authority,
    ;

    /// Returns the URI path.
    fn path(&self) -> (r: &str)
        ensures
            r@ == self.parts().uri.path,
    ;

    /// Splits a protobuf RPC request path into routing prefix, service name
    /// and method name. There are none where the path has fewer than two
    /// slashes.
    fn protobuf_rpc_parts(&self) -> (r: Option<(&str, &str, &str)>)
        ensures
            match r {
                Some((routing_prefix, service, method)) => rpc_parts_of(self.parts().uri.path)
                    == Some((routing_prefix@, service@, method@)),
                None => rpc_parts_of(self.parts().uri.path) is None,
            },
    ;

    /// Returns the message codec.
    fn message_codec(&self) -> (r: Result<String, Error>)
        ensures
            text_result(r) == message_codec_of(self.parts()),
    ;

    /// Returns the timeout, in milliseconds.
    fn timeout(&self) -> (r: Option<u64>)
        ensures
            r == timeout_of(self.parts()),
    ;

    /// Returns the content encoding (e.g. compression).
    fn content_encoding(&self) -> (r: Option<String>)
        ensures
            text_option(r) == content_encoding_of(self.parts()),
    ;

    /// Returns the accept encoding(s).
    fn accept_encoding(&self) -> (r: Vec<String>)
        ensures
            text_list(r@) == accept_encoding_of(self.parts()),
    ;

    /// Returns the metadata.
    fn metadata(&self) -> (r: &http::HeaderMap)
        ensures
            header_groups(*r) == self.parts().headers,
    ;

    /// Validates the request.
    fn validate(&self) -> (r: Result<(), Error>)
        ensures
            unit_result(r) == validation_of(self.parts()),
    ;
}

/// The first value under a fixed header name, read as text.
pub(crate) fn header_value_text(headers: &http::HeaderMap, name: &str) -> (r: Option<String>)
    requires
        is_header_name(name@),
    ensures
        text_option(r) == header_text_of(header_groups(*headers), name@),
{
    match header_map_get(headers, name) {
        Some(v) => header_text(v.as_slice()),
        None => None,
    }
}

/// Those of the values under a fixed header name that are text.
pub(crate) fn header_value_texts(headers: &http::HeaderMap, name: &str) -> (r: Vec<String>)
    requires
        is_header_name(name@),
    ensures
        text_list(r@) == texts_of(values_of(header_groups(*headers), name@)),
{
    let values = header_map_get_all(headers, name);
    let mut out: Vec<String> = Vec::new();
    let mut i: usize = 0;
    while i < values.len()
        invariant
            i <= values.len(),
            text_list(out@) == texts_of(bytes_list(values@).take(i as int)),
        decreases values.len() - i,
    {
        let ghost upto = bytes_list(values@).take(i + 1);
        assert(upto.drop_last() =~= bytes_list(values@).take(i as int));
        match header_text(values[i].as_slice()) {
            Some(t) => {
                out.push(t);
            },
            None => {},
        }
        i += 1;
    }
    assert(bytes_list(values@).take(i as int) =~= bytes_list(values@));
    out
}

/// The timeout that the headers name.
fn header_timeout(headers: &http::HeaderMap) -> (r: Option<u64>)
    ensures
        r == match header_text_of(header_groups(*headers), CONNECT_TIMEOUT_MS@) {
            Some(t) => parsed_u64(t),
            None => None,
        },
{
    proof {
        lemma_fixed_names();
    }
    match header_value_text(headers, CONNECT_TIMEOUT_MS) {
        Some(t) => parse_u64(t.as_str()),
        None => None,
    }
}

/// Cuts a path into routing prefix, service and method.
fn split_rpc_path(path: &str) -> (r: Option<(&str, &str, &str)>)
    ensures
        match r {
            Some((routing_prefix, service, method)) => rpc_parts_of(path@) == Some(
                (routing_prefix@, service@, method@),
            ),
            None => rpc_parts_of(path@) is None,
        },
{
    match rsplit_once(path, '/') {
        Some((prefix, method)) => match rsplit_once(prefix, '/') {
            Some((routing_prefix, service)) => Some((routing_prefix, service, method)),
            None => None,
        },
        None => None,
    }
}

/// Checks a protocol version, where one is named.
fn check_version(version: Option<String>) -> (r: Result<(), Error>)
    ensures
        unit_result(r) == match text_option(version) {
            Some(v) if v != PROTOCOL_VERSION_1@ => Err::<(), ErrorView>(unknown_version_error(v)),
            _ => Ok::<(), ErrorView>(()),
        },
{
    match version {
        None => Ok(()),
        Some(v) => {
            if str_eq(v.as_str(), PROTOCOL_VERSION_1) {
                Ok(())
            } else {
                let shown = quoted(v.as_str());
                let msg = join("unknown connect-protocol-version ", shown.as_str());
                Err(Error::InvalidRequest(msg))
            }
        },
    }
}

/// The text of an optional string.
fn as_slice_option(s: &Option<String>) -> (r: Option<&str>)
    ensures
        slice_option(r) == text_option(*s),
{
    match s {
        Some(t) => Some(t.as_str()),
        None => None,
    }
}

/// A Connect unary request.
#[derive(Debug)]
pub struct UnaryRequest<T>(HttpRequest<T>);

impl<T> UnaryRequest<T> {
    /// The HTTP request behind this request.
    pub closed spec fn request(&self) -> HttpRequest<T> {
        self.0
    }

    /// Reads an HTTP request as a unary request.
    pub fn new(req: HttpRequest<T>) -> (r: Self)
        ensures
            r.request() == req,
    {
        UnaryRequest(req)
    }

    /// Gives the HTTP request back.
    pub fn into_inner(self) -> (r: HttpRequest<T>)
        ensures
            r == self.request(),
    {
        self.0
    }

    /// The body of the request.
    pub fn body(&self) -> (r: &T)
        ensures
            *r == self.request().body,
    {
        &self.0.body
    }
}

impl<T> ConnectRequest for UnaryRequest<T> {
    open spec fn parts(&self) -> RequestView {
        RequestView {
            kind: RequestKind::Unary,
            uri: self.request().uri@,
            headers: header_groups(self.request().headers),
            query: Seq::empty(),
        }
    }

    fn connect_protocol_version(&self) -> (r: Option<String>) {
        proof {
            lemma_fixed_names();
        }
        header_value_text(&self.0.headers, CONNECT_PROTOCOL_VERSION)
    }

    fn scheme(&self) -> (r: Option<&str>) {
        as_slice_option(&self.0.uri.scheme)
    }

    fn authority(&self) -> (r: Option<&str>) {
        as_slice_option(&self.0.uri.authority)
    }

    fn path(&self) -> (r: &str) {
        self.0.uri.path.as_str()
    }

    fn protobuf_rpc_parts(&self) -> (r: Option<(&str, &str, &str)>) {
        split_rpc_path(self.0.uri.path.as_str())
    }

    fn message_codec(&self) -> (r: Result<String, Error>) {
        unary_message_codec(&self.0.headers)
    }

    fn timeout(&self) -> (r: Option<u64>) {
        header_timeout(&self.0.headers)
    }

    fn content_encoding(&self) -> (r: Option<String>) {
        proof {
            lemma_fixed_names();
        }
        header_value_text(&self.0.headers, CONTENT_ENCODING)
    }

    fn accept_encoding(&self) -> (r: Vec<String>) {
        proof {
            lemma_fixed_names();
        }
        header_value_texts(&self.0.headers, ACCEPT_ENCODING)
    }

    fn metadata(&self) -> (r: &http::HeaderMap) {
        &self.0.headers
    }

    fn validate(&self) -> (r: Result<(), Error>) {
        match check_version(self.connect_protocol_version()) {
            Err(e) => Err(e),
            Ok(_) => match self.message_codec() {
                Err(e) => Err(e),
                Ok(_) => Ok(()),
            },
        }
    }
}

/// A Connect streaming request.
#[derive(Debug)]
pub struct StreamingRequest<T>(HttpRequest<T>);

impl<T> StreamingRequest<T> {
    /// The HTTP request behind this request.
    pub closed spec fn request(&self) -> HttpRequest<T> {
        self.0
    }

    /// Reads an HTTP request as a streaming request.
    pub fn new(req: HttpRequest<T>) -> (r: Self)
        ensures
            r.request() == req,
    {
        StreamingRequest(req)
    }

    /// Gives the HTTP request back.
    pub fn into_inner(self) -> (r: HttpRequest<T>)
        ensures
            r == self.request(),
    {
        self.0
    }

    /// The body of the request.
    pub fn body(&self) -> (r: &T)
        ensures
            *r == self.request().body,
    {
        &self.0.body
    }
}

impl<T> ConnectRequest for StreamingRequest<T> {
    open spec fn parts(&self) -> RequestView {
        RequestView {
            kind: RequestKind::Streaming,
            uri: self.request().uri@,
            headers: header_groups(self.request().headers),
            query: Seq::empty(),
        }
    }

    fn connect_protocol_version(&self) -> (r: Option<String>) {
        proof {
            lemma_fixed_names();
        }
        header_value_text(&self.0.headers, CONNECT_PROTOCOL_VERSION)
    }

    fn scheme(&self) -> (r: Option<&str>) {
        as_slice_option(&self.0.uri.scheme)
    }

    fn authority(&self) -> (r: Option<&str>) {
        as_slice_option(&self.0.uri.authority)
    }

    fn path(&self) -> (r: &str) {
        self.0.uri.path.as_str()
    }

    fn protobuf_rpc_parts(&self) -> (r: Option<(&str, &str, &str)>) {
        split_rpc_path(self.0.uri.path.as_str())
    }

    fn message_codec(&self) -> (r: Result<String, Error>) {
        streaming_message_codec(&self.0.headers)
    }

    fn timeout(&self) -> (r: Option<u64>) {
        header_timeout(&self.0.headers)
    }

    fn content_encoding(&self) -> (r: Option<String>) {
        proof {
            lemma_fixed_names();
        }
        header_value_text(&self.0.headers, CONNECT_CONTENT_ENCODING)
    }

    fn accept_encoding(&self) -> (r: Vec<String>) {
        proof {
            lemma_fixed_names();
        }
        header_value_texts(&self.0.headers, CONNECT_ACCEPT_ENCODING)
    }

    fn metadata(&self) -> (r: &http::HeaderMap) {
        &self.0.headers
    }

    fn validate(&self) -> (r: Result<(), Error>) {
        match check_version(self.connect_protocol_version()) {
            Err(e) => Err(e),
            Ok(_) => match self.message_codec() {
                Err(e) => Err(e),
                Ok(_) => Ok(()),
            },
        }
    }
}

/// The bytes of an optional query.
pub open spec fn query_bytes(query: Option<Seq<char>>) -> Seq<u8> {
    match query {
        Some(q) => encode_utf8(q),
        None => Seq::empty(),
    }
}

/// The message that the query of a unary GET request carries, or why it
/// carries none: the `message` parameter, read as unpadded URL-safe base64
/// where the `base64` parameter is `1`, and percent-decoded otherwise.
pub open spec fn message_of(query: Seq<(Seq<char>, Seq<char>)>) -> Result<Seq<u8>, ErrorView> {
    match query_value(query, "message"@) {
        None => Err(invalid_request("missing message"@)),
        Some(m) => if query_value(query, "base64"@) == Some("1"@) {
            match base64url_bytes(encode_utf8(m)) {
                Some(b) => Ok(b),
                None => Err(ErrorView::Base64DecodeError),
            }
        } else {
            match percent_decoded(m) {
                Some(b) => Ok(b),
                None => Err(invalid_request("message not valid utf8"@)),
            }
        },
    }
}

/// The mathematical content of bytes or an error.
pub open spec fn bytes_result(r: Result<Vec<u8>, Error>) -> Result<Seq<u8>, ErrorView> {
    match r {
        Ok(b) => Ok(b@),
        Err(e) => Err(e@),
    }
}

/// A Connect unary GET request.
///
/// The parameters of the query are kept in the order of the query. A
/// parameter that occurs more than once has the value of its last
/// occurrence, as in a map filled in that order.
#[derive(Debug)]
pub struct UnaryGetRequest {
    inner: HttpRequest<()>,
    query: Vec<(String, String)>,
}

impl UnaryGetRequest {
    /// The HTTP request behind this request.
    pub closed spec fn request(&self) -> HttpRequest<()> {
        self.inner
    }

    /// The names and values of the query, in order.
    pub closed spec fn query(&self) -> Seq<(Seq<char>, Seq<char>)> {
        text_entry_list(self.query@)
    }

    /// Reads an HTTP request as a unary GET request: the query is taken
    /// apart into names and values.
    pub fn new(req: HttpRequest<()>) -> (r: Self)
        ensures
            r.request() == req,
            r.query() == form_pairs(query_bytes(req.uri@.query)),
    {
        let query = match &req.uri.query {
            Some(q) => parse_form(q.as_str().as_bytes()),
            None => {
                let empty: Vec<u8> = Vec::new();
                parse_form(empty.as_slice())
            },
        };
        UnaryGetRequest { inner: req, query }
    }

    /// Gives the HTTP request back.
    pub fn into_inner(self) -> (r: HttpRequest<()>)
        ensures
            r == self.request(),
    {
        self.inner
    }

    /// The value of a query parameter.
    fn query_get(&self, name: &str) -> (r: Option<&str>)
        ensures
            slice_option(r) == query_value(self.query(), name@),
    {
        let mut i: usize = self.query.len();
        assert(self.query().take(i as int) =~= self.query());
        while i > 0
            invariant
                i <= self.query.len(),
                query_value(self.query(), name@) == query_value(
                    self.query().take(i as int),
                    name@,
                ),
            decreases i,
        {
            let ghost front = self.query().take(i as int);
            assert(front.drop_last() =~= self.query().take(i - 1));
            if str_eq(self.query[i - 1].0.as_str(), name) {
                return Some(self.query[i - 1].1.as_str());
            }
            i -= 1;
        }
        None
    }

    /// The message of the request: the value of the `message` parameter,
    /// decoded from unpadded URL-safe base64 where the `base64` parameter is
    /// `1`. Otherwise the value, as the query gave it, is percent-decoded
    /// and must then be UTF-8.
    pub fn message(&self) -> (r: Result<Vec<u8>, Error>)
        ensures
            bytes_result(r) == message_of(self.query()),
    {
        let message = match self.query_get("message") {
            Some(m) => m,
            None => {
                return Err(Error::invalid_request("missing message"));
            },
        };
        let is_b64 = match self.query_get("base64") {
            Some(flag) => str_eq(flag, "1"),
            None => false,
        };
        if is_b64 {
            match url_safe_decode(message.as_bytes()) {
                Ok(bytes) => Ok(bytes),
                Err(e) => Err(Error::Base64DecodeError(e)),
            }
        } else {
            match percent_decode_utf8(message) {
                Some(bytes) => Ok(bytes),
                None => Err(Error::invalid_request("message not valid utf8")),
            }
        }
    }
}

impl ConnectRequest for UnaryGetRequest {
    open spec fn parts(&self) -> RequestView {
        RequestView {
            kind: RequestKind::UnaryGet,
            uri: self.request().uri@,
            headers: header_groups(self.request().headers),
            query: self.query(),
        }
    }

    fn connect_protocol_version(&self) -> (r: Option<String>) {
        match self.query_get("connect") {
            Some(v) => match strip_prefix(v, "v") {
                Some(rest) => {
                    proof {
                        reveal_strlit("v");
                    }
                    Some(rest.to_owned())
                },
                None => None,
            },
            None => None,
        }
    }

    fn scheme(&self) -> (r: Option<&str>) {
        as_slice_option(&self.inner.uri.scheme)
    }

    fn authority(&self) -> (r: Option<&str>) {
        as_slice_option(&self.inner.uri.authority)
    }

    fn path(&self) -> (r: &str) {
        self.inner.uri.path.as_str()
    }

    fn protobuf_rpc_parts(&self) -> (r: Option<(&str, &str, &str)>) {
        split_rpc_path(self.inner.uri.path.as_str())
    }

    fn message_codec(&self) -> (r: Result<String, Error>) {
        match self.query_get("encoding") {
            Some(codec) => Ok(codec.to_owned()),
            None => Err(Error::invalid_request("missing 'encoding' param")),
        }
    }

    fn timeout(&self) -> (r: Option<u64>) {
        header_timeout(&self.inner.headers)
    }

    fn content_encoding(&self) -> (r: Option<String>) {
        match self.query_get("compression") {
            Some(encoding) => Some(encoding.to_owned()),
            None => None,
        }
    }

    fn accept_encoding(&self) -> (r: Vec<String>) {
        proof {
            lemma_fixed_names();
        }
        header_value_texts(&self.inner.headers, ACCEPT_ENCODING)
    }

    fn metadata(&self) -> (r: &http::HeaderMap) {
        &self.inner.headers
    }

    fn validate(&self) -> (r: Result<(), Error>) {
        match check_version(self.connect_protocol_version()) {
            Err(e) => Err(e),
            Ok(_) => match self.message_codec() {
                Err(e) => Err(e),
                Ok(_) => {
                    if self.query_get("message").is_none() {
                        Err(Error::invalid_request("missing 'message' param"))
                    } else {
                        Ok(())
                    }
                },
            },
        }
    }
}

/// Connect request types.
#[derive(Debug)]
pub enum ConnectRequestType<T> {
    Unary(UnaryRequest<T>),
    Streaming(StreamingRequest<T>),
    UnaryGet(UnaryGetRequest),
}

/// Whether the headers name a streaming content type: the first content
/// type, read as text, starts with `application/connect+`.
pub open spec fn is_streaming_content_type(headers: Groups) -> bool {
    match header_text_of(headers, CONTENT_TYPE@) {
        Some(t) => has_prefix(t, STREAMING_CONTENT_TYPE_PREFIX@),
        None => false,
    }
}

impl<T> ConnectRequestType<T> {
    /// Tells the shape of an inbound HTTP request: a GET request is a unary
    /// GET request, whose body is dropped; a request with a streaming
    /// content type is a streaming request; any other is a unary request.
    pub fn from_http(req: HttpRequest<T>) -> (r: Self)
        ensures
            match r {
                ConnectRequestType::UnaryGet(get) => {
                    &&& req.method is Get
                    &&& get.request().method == req.method
                    &&& get.request().uri == req.uri
                    &&& get.request().headers == req.headers
                    &&& get.query() == form_pairs(query_bytes(req.uri@.query))
                },
                ConnectRequestType::Streaming(streaming) => {
                    &&& !(req.method is Get)
                    &&& is_streaming_content_type(header_groups(req.headers))
                    &&& streaming.request() == req
                },
                ConnectRequestType::Unary(unary) => {
                    &&& !(req.method is Get)
                    &&& !is_streaming_content_type(header_groups(req.headers))
                    &&& unary.request() == req
                },
            },
    {
        let is_get = match &req.method {
            Method::Get => true,
            _ => false,
        };
        if is_get {
            let HttpRequest { method, uri, headers, body } = req;
            return ConnectRequestType::UnaryGet(
                UnaryGetRequest::new(HttpRequest { method, uri, headers, body: () }),
            );
        }
        proof {
            lemma_fixed_names();
        }
        let streaming = match header_value_text(&req.headers, CONTENT_TYPE) {
            Some(t) => starts_with(t.as_str(), STREAMING_CONTENT_TYPE_PREFIX),
            None => false,
        };
        if streaming {
            ConnectRequestType::Streaming(StreamingRequest::new(req))
        } else {
            ConnectRequestType::Unary(UnaryRequest::new(req))
        }
    }
}

} // verus!

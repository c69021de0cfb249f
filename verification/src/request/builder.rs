//! Building requests: a builder gathers the caller's intent, checking each
//! part as it is given, and makes a unary, streaming or unary GET request
//! with the headers and the URI that the protocol asks for.

use vstd::prelude::*;
use vstd::utf8::*;
use crate::common::{
    base64url_bytes, base64url_text, invalid_request, is_base64url_char, is_http_token,
    is_valid_http_token, lemma_fixed_names, text_option, url_safe_encode, ACCEPT_ENCODING,
    CONNECT_ACCEPT_ENCODING, CONNECT_CONTENT_ENCODING, CONNECT_PROTOCOL_VERSION, CONNECT_TIMEOUT_MS,
    CONTENT_ENCODING, CONTENT_TYPE, CONTENT_TYPE_PREFIX, PROTOCOL_VERSION_1,
    STREAMING_CONTENT_TYPE_PREFIX,
};
use crate::headers::{
    bytes_list, find_group, groups_append, groups_insert, has_room, header_groups, header_map_new,
    header_value, is_header_name, is_header_value, Groups,
};
use crate::metadata::{
    ascii_entry_of, binary_entry_of, capacity_error, is_printable, printable_bytes, store,
    text_entry_list, Metadata,
};
use crate::query::{form_pairs, form_text, is_form_char, serialize_form};
use crate::request::{
    message_of, query_bytes, query_value, HttpRequest, Method, StreamingRequest, UnaryGetRequest,
    UnaryRequest,
};
use crate::text::{
    ascii_bytes, contains_char, decimal_string, decimal_text, ends_with, is_printable_char, join,
    lemma_char_range, lemma_decimal_len, lower_text, to_lower,
};
use crate::uri::{
    assemble_uri, assembled_path, authority_accepted, check_authority, check_path_and_query,
    check_scheme, lemma_first_position, lemma_path_with_query, lemma_plain_path, parts_agree,
    path_and_query_accepted, scheme_accepted, split_uri, uri_split, without_fragment, Uri, UriView,
};
use crate::{Error, ErrorView};

verus! {

/// The largest timeout that ten decimal digits can write.
pub const MAX_TIMEOUT_MS: u64 = 9_999_999_999;

/// A builder of requests.
#[derive(Debug)]
pub struct RequestBuilder {
    scheme: Option<String>,
    authority: Option<String>,
    path: Option<String>,
    metadata: http::HeaderMap,
    message_codec: Option<String>,
    timeout_ms: Option<u64>,
    content_encoding: Option<String>,
    accept_encoding: Vec<Vec<u8>>,
}

/// What a builder has gathered.
pub ghost struct RequestBuilderView {
    pub scheme: Option<Seq<char>>,
    pub authority: Option<Seq<char>>,
    pub path: Option<Seq<char>>,
    pub metadata: Groups,
    pub message_codec: Option<Seq<char>>,
    pub timeout_ms: Option<u64>,
    pub content_encoding: Option<Seq<char>>,
    pub accept_encoding: Seq<Seq<u8>>,
}

impl View for RequestBuilder {
    type V = RequestBuilderView;

    closed spec fn view(&self) -> RequestBuilderView {
        RequestBuilderView {
            scheme: text_option(self.scheme),
            authority: text_option(self.authority),
            path: text_option(self.path),
            metadata: header_groups(self.metadata),
            message_codec: text_option(self.message_codec),
            timeout_ms: self.timeout_ms,
            content_encoding: text_option(self.content_encoding),
            accept_encoding: bytes_list(self.accept_encoding@),
        }
    }
}

/// A builder that has gathered nothing.
pub open spec fn empty_builder() -> RequestBuilderView {
    RequestBuilderView {
        scheme: None,
        authority: None,
        path: None,
        metadata: Seq::empty(),
        message_codec: None,
        timeout_ms: None,
        content_encoding: None,
        accept_encoding: Seq::empty(),
    }
}

/// The path that a builder keeps for a path as given: with a slash in front
/// where it has none. A path with a question mark is refused.
pub open spec fn path_of(path: Seq<char>) -> Result<Seq<char>, ErrorView> {
    if path.contains('?') {
        Err(invalid_request("path may not contain query params ('?')"@))
    } else if path.len() > 0 && path[0] == '/' {
        Ok(path)
    } else {
        Ok(seq!['/'] + path)
    }
}

/// The path of a protobuf RPC: a slash, the service, a slash, the method.
pub open spec fn rpc_path(service: Seq<char>, method: Seq<char>) -> Seq<char> {
    seq!['/'] + service + seq!['/'] + method
}

/// The path of a protobuf RPC behind a routing prefix, which gets a slash
/// at its end where it has none.
pub open spec fn routed_rpc_path(prefix: Seq<char>, service: Seq<char>, method: Seq<char>) -> Seq<
    char,
> {
    if prefix.len() > 0 && prefix.last() == '/' {
        prefix + service + seq!['/'] + method
    } else {
        prefix + seq!['/'] + service + seq!['/'] + method
    }
}

/// The scheme, the authority and the path that a builder takes from a URI
/// given as one text: those of the URI, if it is one and its scheme and
/// authority can stand alone.
pub open spec fn uri_parts_of(text: Seq<char>) -> Option<
    (Option<Seq<char>>, Option<Seq<char>>, Option<Seq<char>>),
> {
    match uri_split(text) {
        Some(parts) => if (parts.0 matches Some(s) ==> scheme_accepted(s)) && (parts.1 matches Some(
            a,
        ) ==> authority_accepted(a)) {
            Some(parts)
        } else {
            None
        },
        None => None,
    }
}

/// The byte values of a list of texts.
pub open spec fn texts_bytes(texts: Seq<String>) -> Seq<Seq<u8>> {
    texts.map_values(|s: String| encode_utf8(s@))
}

/// Every text of the list is a header value.
pub open spec fn all_header_values(texts: Seq<String>) -> bool {
    forall|i: int| 0 <= i < texts.len() ==> is_header_value(#[trigger] texts_bytes(texts)[i])
}

/// The headers that every request gets: the metadata, the protocol version,
/// and the timeout if one is set.
pub open spec fn common_headers(b: RequestBuilderView) -> Groups {
    with_common(b.metadata, b.timeout_ms)
}

/// Metadata with the protocol version, and with the timeout if there is
/// one.
pub open spec fn with_common(metadata: Groups, timeout_ms: Option<u64>) -> Groups {
    let versioned = groups_insert(
        metadata,
        CONNECT_PROTOCOL_VERSION@,
        ascii_bytes(PROTOCOL_VERSION_1@),
    );
    match timeout_ms {
        Some(t) => groups_insert(
            versioned,
            CONNECT_TIMEOUT_MS@,
            ascii_bytes(decimal_text(t as nat)),
        ),
        None => versioned,
    }
}

/// The groups after each of the values has been added under the name.
pub open spec fn append_all(groups: Groups, name: Seq<char>, values: Seq<Seq<u8>>) -> Groups
    decreases values.len(),
{
    if values.len() == 0 {
        groups
    } else {
        groups_append(append_all(groups, name, values.drop_last()), name, values.last())
    }
}

/// The content type of a POST request.
pub open spec fn content_type_text(codec: Seq<char>, streaming: bool) -> Seq<char> {
    if streaming {
        STREAMING_CONTENT_TYPE_PREFIX@ + codec
    } else {
        CONTENT_TYPE_PREFIX@ + codec
    }
}

/// The headers of a POST request: the common headers, the content type
/// where a codec is set, the content encoding where one is set, and each
/// accepted encoding. A streaming request names its encodings under the
/// `connect-` names.
pub open spec fn post_headers(b: RequestBuilderView, streaming: bool) -> Groups {
    let common = common_headers(b);
    let typed = match b.message_codec {
        Some(codec) => groups_insert(
            common,
            CONTENT_TYPE@,
            ascii_bytes(content_type_text(codec, streaming)),
        ),
        None => common,
    };
    let encoded = match b.content_encoding {
        Some(encoding) => groups_insert(
            typed,
            if streaming {
                CONNECT_CONTENT_ENCODING@
            } else {
                CONTENT_ENCODING@
            },
            ascii_bytes(encoding),
        ),
        None => typed,
    };
    append_all(
        encoded,
        if streaming {
            CONNECT_ACCEPT_ENCODING@
        } else {
            ACCEPT_ENCODING@
        },
        b.accept_encoding,
    )
}

/// The headers of a unary GET request: the common headers and each
/// accepted encoding.
pub open spec fn get_headers(b: RequestBuilderView) -> Groups {
    append_all(common_headers(b), ACCEPT_ENCODING@, b.accept_encoding)
}

/// The URI made of a builder's scheme and authority and the given path and
/// query, or why there is none.
pub open spec fn built_uri(b: RequestBuilderView, path_and_query: Option<Seq<char>>) -> Result<
    UriView,
    ErrorView,
> {
    uri_of_parts(b.scheme, b.authority, path_and_query)
}

/// The URI made of the given parts, or why there is none: the path and
/// query must be one, and the parts must agree.
pub open spec fn uri_of_parts(
    scheme: Option<Seq<char>>,
    authority: Option<Seq<char>>,
    path_and_query: Option<Seq<char>>,
) -> Result<UriView, ErrorView> {
    if path_and_query matches Some(p) && !path_and_query_accepted(p) {
        Err(ErrorView::InvalidUri)
    } else if !parts_agree(scheme is Some, authority is Some, path_and_query is Some) {
        Err(ErrorView::InvalidUriParts)
    } else {
        Ok(
            UriView {
                scheme: scheme,
                authority: authority,
                path: assembled_path(scheme is Some, path_and_query).0,
                query: assembled_path(scheme is Some, path_and_query).1,
            },
        )
    }
}

/// The query parameters of a unary GET request: the message in URL-safe
/// base64, the base64 flag, the protocol version, the codec, and the
/// compression where a content encoding is set.
pub open spec fn get_query(codec: Seq<char>, encoding: Option<Seq<char>>, message: Seq<u8>) -> Seq<
    (Seq<char>, Seq<char>),
> {
    let fixed = seq![
        ("message"@, base64url_text(message)),
        ("base64"@, "1"@),
        ("connect"@, "v1"@),
        ("encoding"@, codec),
    ];
    match encoding {
        Some(e) => fixed.push(("compression"@, e)),
        None => fixed,
    }
}

/// The path and query of a unary GET request.
pub open spec fn get_path_and_query(
    path: Seq<char>,
    codec: Seq<char>,
    encoding: Option<Seq<char>>,
    message: Seq<u8>,
) -> Seq<char> {
    path + seq!['?'] + form_text(get_query(codec, encoding, message))
}

/// The URI of the unary GET request that a builder makes for a message, or
/// why it makes none: a path and a codec are needed.
pub open spec fn get_uri(b: RequestBuilderView, message: Seq<u8>) -> Result<UriView, ErrorView> {
    match b.path {
        None => Err(invalid_request("path required"@)),
        Some(path) => match b.message_codec {
            None => Err(invalid_request("message codec required"@)),
            Some(codec) => built_uri(
                b,
                Some(get_path_and_query(path, codec, b.content_encoding, message)),
            ),
        },
    }
}

/// A path that is taken as it is: not empty, and without `?` and `#`.
pub open spec fn is_plain_path(path: Seq<char>) -> bool {
    path.len() > 0 && !path.contains('?') && !path.contains('#')
}

/// The path that a builder keeps is not empty and has no `?`; it has no
/// `#` where the path given has none.
pub proof fn lemma_kept_path(path: Seq<char>)
    requires
        path_of(path) is Ok,
    ensures
        path_of(path)->Ok_0.len() > 0,
        !path_of(path)->Ok_0.contains('?'),
        !path.contains('#') ==> !path_of(path)->Ok_0.contains('#'),
{
    let kept = path_of(path)->Ok_0;
    if !(path.len() > 0 && path[0] == '/') {
        assert forall|i: int| 0 <= i < kept.len() implies kept[i] != '?' && (!path.contains('#')
            ==> kept[i] != '#') by {
            if i > 0 {
                assert(kept[i] == path[i - 1]);
                assert(path.contains(path[i - 1]));
            }
        }
    }
}

/// A request built on a path that is not empty and has neither `?` nor `#`
/// has that path, and no query.
pub proof fn lemma_built_path(b: RequestBuilderView, path: Seq<char>)
    requires
        b.path == Some(path),
        path.len() > 0,
        !path.contains('?'),
        !path.contains('#'),
        built_uri(b, b.path) is Ok,
    ensures
        built_uri(b, b.path)->Ok_0.path == path,
        built_uri(b, b.path)->Ok_0.query is None,
{
    lemma_plain_path(b.scheme is Some, path);
}

/// A unary GET request built on a path that is not empty and has neither
/// `?` nor `#` has that path, and as its query the form encoding of its
/// parameters, up to a fragment if the encoding had one.
pub proof fn lemma_built_get_uri(b: RequestBuilderView, path: Seq<char>, message: Seq<u8>)
    requires
        b.path == Some(path),
        path.len() > 0,
        !path.contains('?'),
        !path.contains('#'),
        get_uri(b, message) is Ok,
    ensures
        get_uri(b, message)->Ok_0.path == path,
        get_uri(b, message)->Ok_0.query == Some(
            without_fragment(
                form_text(get_query(b.message_codec->Some_0, b.content_encoding, message)),
            ),
        ),
{
    lemma_path_with_query(
        b.scheme is Some,
        path,
        form_text(get_query(b.message_codec->Some_0, b.content_encoding, message)),
    );
}

/// The parameters of a unary GET request, read as such a request reads its
/// query, give the message that was written, where its base64 text decodes
/// to it.
proof fn lemma_written_message(
    query: Seq<(Seq<char>, Seq<char>)>,
    text: Seq<char>,
    message: Seq<u8>,
)
    requires
        query.len() == 4 || query.len() == 5,
        query[0] == ("message"@, text),
        query[1] == ("base64"@, "1"@),
        query[2].0 == "connect"@,
        query[3].0 == "encoding"@,
        query.len() == 5 ==> query[4].0 == "compression"@,
        forall|i: int| 0 <= i < text.len() ==> is_base64url_char(#[trigger] text[i]),
        base64url_bytes(ascii_bytes(text)) == Some(message),
    ensures
        message_of(query) == Ok::<Seq<u8>, ErrorView>(message),
{
    reveal_strlit("message");
    reveal_strlit("base64");
    reveal_strlit("connect");
    reveal_strlit("encoding");
    reveal_strlit("compression");
    reveal_with_fuel(query_value, 6);
    assert("message"@.len() == 7 && "base64"@.len() == 6 && "connect"@.len() == 7
        && "encoding"@.len() == 8 && "compression"@.len() == 11);
    assert("message"@[0] == 'm' && "connect"@[0] == 'c');
    let q4 = query.take(4);
    assert(q4.drop_last() =~= query.take(3));
    assert(query.take(3).drop_last() =~= query.take(2));
    assert(query.take(2).drop_last() =~= query.take(1));
    assert(query.take(1).drop_last() =~= query.take(0));
    if query.len() == 5 {
        assert(query.drop_last() =~= q4);
    } else {
        assert(query =~= q4);
    }
    assert(query_value(query, "message"@) == Some(text));
    assert(query_value(query, "base64"@) == Some("1"@));
    assert forall|i: int| 0 <= i < text.len() implies '\0' <= #[trigger] text[i] <= '\u{7f}' by {
        assert(is_base64url_char(text[i]));
        lemma_char_range(text[i]);
    }
    is_ascii_chars_encode_utf8(text);
    assert(encode_utf8(text) =~= ascii_bytes(text));
}

/// A token is printable.
pub proof fn lemma_token_is_printable(token: Seq<char>)
    requires
        is_http_token(token),
    ensures
        is_printable(token),
{
    assert forall|i: int| 0 <= i < token.len() implies is_printable_char(#[trigger] token[i]) by {
        lemma_char_range(token[i]);
    }
}

/// The decimal text of a number is printable.
pub proof fn lemma_decimal_is_printable(n: nat)
    ensures
        is_printable(decimal_text(n)),
    decreases n,
{
    if n >= 10 {
        lemma_decimal_is_printable(n / 10);
    }
}

impl Default for RequestBuilder {
    /// A builder that has gathered nothing.
    fn default() -> (r: Self)
        ensures
            r@ == empty_builder(),
    {
        RequestBuilder::new()
    }
}

impl RequestBuilder {
    #[verifier::type_invariant]
    spec fn well_formed(self) -> bool {
        &&& self.scheme matches Some(s) ==> scheme_accepted(s@)
        &&& self.authority matches Some(a) ==> authority_accepted(a@)
        &&& self.message_codec matches Some(c) ==> is_http_token(c@)
        &&& self.content_encoding matches Some(e) ==> is_http_token(e@)
        &&& self.timeout_ms matches Some(t) ==> t <= MAX_TIMEOUT_MS
        &&& forall|i: int|
            0 <= i < self.accept_encoding@.len() ==> is_header_value(
                (#[trigger] self.accept_encoding@[i])@,
            )
    }

    /// A builder that has gathered nothing.
    pub fn new() -> (r: Self)
        ensures
            r@ == empty_builder(),
    {
        let accept_encoding: Vec<Vec<u8>> = Vec::new();
        assert(bytes_list(accept_encoding@) =~= Seq::<Seq<u8>>::empty());
        RequestBuilder {
            scheme: None,
            authority: None,
            path: None,
            metadata: header_map_new(),
            message_codec: None,
            timeout_ms: None,
            content_encoding: None,
            accept_encoding,
        }
    }

    /// Sets the URI scheme for this request.
    pub fn scheme(self, scheme: &str) -> (r: Result<Self, Error>)
        ensures
            match r {
                Ok(b) => scheme_accepted(scheme@) && b@ == (RequestBuilderView {
                    scheme: Some(scheme@),
                    ..self@
                }),
                Err(e) => !scheme_accepted(scheme@) && e@ == ErrorView::InvalidUri,
            },
    {
        proof {
            use_type_invariant(&self);
        }
        let mut this = self;
        match check_scheme(scheme) {
            Err(e) => Err(Error::InvalidUri(e)),
            Ok(_) => {
                this.scheme = Some(scheme.to_owned());
                Ok(this)
            },
        }
    }

    /// Sets the authority (e.g. hostname) for this request.
    pub fn authority(self, authority: &str) -> (r: Result<Self, Error>)
        ensures
            match r {
                Ok(b) => authority_accepted(authority@) && b@ == (RequestBuilderView {
                    authority: Some(authority@),
                    ..self@
                }),
                Err(e) => !authority_accepted(authority@) && e@ == ErrorView::InvalidUri,
            },
    {
        proof {
            use_type_invariant(&self);
        }
        let mut this = self;
        match check_authority(authority) {
            Err(e) => Err(Error::InvalidUri(e)),
            Ok(_) => {
                this.authority = Some(authority.to_owned());
                Ok(this)
            },
        }
    }

    /// Sets the path for this request.
    ///
    /// May not contain query params (i.e. the character '?'). A path that
    /// does not start with a slash gets one.
    pub fn path(self, path: &str) -> (r: Result<Self, Error>)
        ensures
            match r {
                Ok(b) => path_of(path@) matches Ok(kept) && b@ == (RequestBuilderView {
                    path: Some(kept),
                    ..self@
                }),
                Err(e) => path_of(path@) == Err::<Seq<char>, ErrorView>(e@),
            },
    {
        proof {
            use_type_invariant(&self);
        }
        let mut this = self;
        if contains_char(path, '?') {
            return Err(Error::invalid_request("path may not contain query params ('?')"));
        }
        let kept = if path.unicode_len() > 0 && path.get_char(0) == '/' {
            path.to_owned()
        } else {
            proof {
                reveal_strlit("/");
                assert("/"@ =~= seq!['/']);
            }
            join("/", path)
        };
        this.path = Some(kept);
        Ok(this)
    }

    /// Sets the path for this request from a protobuf RPC service/method.
    pub fn protobuf_rpc(self, full_service_name: &str, method_name: &str) -> (r: Result<
        Self,
        Error,
    >)
        ensures
            match r {
                Ok(b) => path_of(rpc_path(full_service_name@, method_name@)) matches Ok(kept)
                    && b@ == (RequestBuilderView { path: Some(kept), ..self@ }),
                Err(e) => path_of(rpc_path(full_service_name@, method_name@)) == Err::<
                    Seq<char>,
                    ErrorView,
                >(e@),
            },
    {
        proof {
            reveal_strlit("/");
            assert("/"@ =~= seq!['/']);
        }
        let path = join("/", full_service_name).concat("/").concat(method_name);
        self.path(path.as_str())
    }

    /// Sets the path for this request from a routing prefix and protobuf RPC
    /// service/method.
    pub fn protobuf_rpc_with_routing_prefix(
        self,
        routing_prefix: &str,
        full_service_name: &str,
        method_name: &str,
    ) -> (r: Result<Self, Error>)
        ensures
            match r {
                Ok(b) => path_of(
                    routed_rpc_path(routing_prefix@, full_service_name@, method_name@),
                ) matches Ok(kept) && b@ == (RequestBuilderView { path: Some(kept), ..self@ }),
                Err(e) => path_of(
                    routed_rpc_path(routing_prefix@, full_service_name@, method_name@),
                ) == Err::<Seq<char>, ErrorView>(e@),
            },
    {
        proof {
            reveal_strlit("/");
            assert("/"@ =~= seq!['/']);
        }
        let ghost given = routing_prefix@;
        let prefix = if ends_with(routing_prefix, "/") {
            assert(given.subrange(given.len() - 1, given.len() as int)[0] == '/');
            routing_prefix.to_owned()
        } else {
            proof {
                if given.len() > 0 && given.last() == '/' {
                    assert(given.subrange(given.len() - 1, given.len() as int) =~= seq!['/']);
                }
            }
            join(routing_prefix, "/")
        };
        let path = prefix.concat(full_service_name).concat("/").concat(method_name);
        self.path(path.as_str())
    }

    /// Sets the scheme, authority, and path for this request from a URI.
    ///
    /// Any query part of the URI is discarded.
    pub fn uri(self, uri: &str) -> (r: Result<Self, Error>)
        ensures
            match r {
                Ok(b) => uri_parts_of(uri@) matches Some(parts) && b@ == (RequestBuilderView {
                    scheme: parts.0,
                    authority: parts.1,
                    path: parts.2,
                    ..self@
                }),
                Err(e) => uri_parts_of(uri@) is None && e@ == ErrorView::InvalidUri,
            },
    {
        proof {
            use_type_invariant(&self);
        }
        let mut this = self;
        let (scheme, authority, path) = match split_uri(uri) {
            Ok(parts) => parts,
            Err(e) => {
                return Err(Error::InvalidUri(e));
            },
        };
        if let Some(s) = &scheme {
            if let Err(e) = check_scheme(s.as_str()) {
                return Err(Error::InvalidUri(e));
            }
        }
        if let Some(a) = &authority {
            if let Err(e) = check_authority(a.as_str()) {
                return Err(Error::InvalidUri(e));
            }
        }
        this.scheme = scheme;
        this.authority = authority;
        this.path = path;
        Ok(this)
    }

    /// Appends ASCII metadata to the request.
    pub fn ascii_metadata(self, key: &str, val: &str) -> (r: Result<Self, Error>)
        ensures
            match r {
                Ok(b) => ascii_entry_of(key@, val@) matches Ok(entry) && b@ == (RequestBuilderView {
                    metadata: groups_append(self@.metadata, entry.0, entry.1),
                    ..self@
                }),
                Err(e) => e@ == match ascii_entry_of(key@, val@) {
                    Err(refusal) => refusal,
                    Ok(_) => capacity_error(),
                },
            },
            ascii_entry_of(key@, val@) is Ok && has_room(self@.metadata, 1) ==> r is Ok,
    {
        proof {
            use_type_invariant(&self);
        }
        let RequestBuilder {
            scheme,
            authority,
            path,
            metadata,
            message_codec,
            timeout_ms,
            content_encoding,
            accept_encoding,
        } = self;
        let mut metadata = metadata;
        match metadata.append_ascii(key, val) {
            Ok(_) => Ok(
                RequestBuilder {
                    scheme,
                    authority,
                    path,
                    metadata,
                    message_codec,
                    timeout_ms,
                    content_encoding,
                    accept_encoding,
                },
            ),
            Err(e) => Err(e),
        }
    }

    /// Appends binary metadata to the request.
    pub fn binary_metadata(self, key: &str, val: &[u8]) -> (r: Result<Self, Error>)
        ensures
            match r {
                Ok(b) => binary_entry_of(key@, val@) matches Ok(entry) && b@
                    == (RequestBuilderView {
                    metadata: groups_append(self@.metadata, entry.0, entry.1),
                    ..self@
                }),
                Err(e) => e@ == match binary_entry_of(key@, val@) {
                    Err(refusal) => refusal,
                    Ok(_) => capacity_error(),
                },
            },
            binary_entry_of(key@, val@) is Ok && has_room(self@.metadata, 1) ==> r is Ok,
    {
        proof {
            use_type_invariant(&self);
        }
        let RequestBuilder {
            scheme,
            authority,
            path,
            metadata,
            message_codec,
            timeout_ms,
            content_encoding,
            accept_encoding,
        } = self;
        let mut metadata = metadata;
        match metadata.append_binary(key, val) {
            Ok(_) => Ok(
                RequestBuilder {
                    scheme,
                    authority,
                    path,
                    metadata,
                    message_codec,
                    timeout_ms,
                    content_encoding,
                    accept_encoding,
                },
            ),
            Err(e) => Err(e),
        }
    }

    /// Sets the message codec for this request.
    ///
    /// Typical codecs are 'json' and 'proto', corresponding to the
    /// `content-type`s `application/json` and `application/proto`. The
    /// codec must be an HTTP token; it is kept in lower case.
    ///
    /// The caller is responsible for making sure the request payload matches
    /// this message codec.
    pub fn message_codec(self, message_codec: &str) -> (r: Result<Self, Error>)
        ensures
            match r {
                Ok(b) => is_http_token(message_codec@) && b@ == (RequestBuilderView {
                    message_codec: Some(lower_text(message_codec@)),
                    ..self@
                }),
                Err(e) => !is_http_token(message_codec@) && e@ == invalid_request(
                    "invalid message codec"@,
                ),
            },
    {
        proof {
            use_type_invariant(&self);
        }
        let mut this = self;
        if !is_valid_http_token(message_codec) {
            return Err(Error::invalid_request("invalid message codec"));
        }
        proof {
            assert forall|i: int| 0 <= i < message_codec@.len() implies '\0'
                <= #[trigger] message_codec@[i] <= '\u{7f}' by {
                lemma_char_range(message_codec@[i]);
            }
        }
        this.message_codec = Some(to_lower(message_codec));
        Ok(this)
    }

    /// Sets the request timeout in milliseconds, which must take no more
    /// than ten decimal digits.
    pub fn timeout_ms(self, timeout_ms: u64) -> (r: Result<Self, Error>)
        ensures
            match r {
                Ok(b) => decimal_text(timeout_ms as nat).len() <= 10 && b@ == (RequestBuilderView {
                    timeout_ms: Some(timeout_ms),
                    ..self@
                }),
                Err(e) => decimal_text(timeout_ms as nat).len() > 10 && e@ == invalid_request(
                    "timeout too large"@,
                ),
            },
    {
        proof {
            use_type_invariant(&self);
            lemma_decimal_len(timeout_ms as nat);
        }
        let mut this = self;
        if timeout_ms > MAX_TIMEOUT_MS {
            return Err(Error::invalid_request("timeout too large"));
        }
        this.timeout_ms = Some(timeout_ms);
        Ok(this)
    }

    /// Clears the request timeout.
    pub fn clear_timeout(self) -> (r: Self)
        ensures
            r@ == (RequestBuilderView { timeout_ms: None, ..self@ }),
    {
        proof {
            use_type_invariant(&self);
        }
        let mut this = self;
        this.timeout_ms = None;
        this
    }

    /// Sets the request content encoding (e.g. compression), which must be
    /// an HTTP token.
    pub fn content_encoding(self, content_encoding: &str) -> (r: Result<Self, Error>)
        ensures
            match r {
                Ok(b) => is_http_token(content_encoding@) && b@ == (RequestBuilderView {
                    content_encoding: Some(content_encoding@),
                    ..self@
                }),
                Err(e) => !is_http_token(content_encoding@) && e@ == invalid_request(
                    "invalid content encoding"@,
                ),
            },
    {
        proof {
            use_type_invariant(&self);
        }
        let mut this = self;
        if !is_valid_http_token(content_encoding) {
            return Err(Error::invalid_request("invalid content encoding"));
        }
        this.content_encoding = Some(content_encoding.to_owned());
        Ok(this)
    }

    /// Sets the request accept encoding(s), each of which must be a header
    /// value. They replace those set before.
    pub fn accept_encoding(self, accept_encodings: Vec<String>) -> (r: Result<Self, Error>)
        ensures
            match r {
                Ok(b) => all_header_values(accept_encodings@) && b@ == (RequestBuilderView {
                    accept_encoding: texts_bytes(accept_encodings@),
                    ..self@
                }),
                Err(e) => !all_header_values(accept_encodings@) && e@
                    == ErrorView::InvalidHeaderValue,
            },
    {
        proof {
            use_type_invariant(&self);
        }
        let mut this = self;
        let mut values: Vec<Vec<u8>> = Vec::new();
        let mut i: usize = 0;
        while i < accept_encodings.len()
            invariant
                i <= accept_encodings.len(),
                values@.len() == i,
                forall|j: int|
                    0 <= j < i ==> (#[trigger] values@[j])@ == texts_bytes(accept_encodings@)[j],
                forall|j: int| 0 <= j < i ==> is_header_value((#[trigger] values@[j])@),
            decreases accept_encodings.len() - i,
        {
            match header_value(accept_encodings[i].as_str().as_bytes()) {
                Ok(value) => {
                    values.push(value);
                },
                Err(e) => {
                    assert(!is_header_value(texts_bytes(accept_encodings@)[i as int]));
                    return Err(Error::InvalidHeaderValue(e));
                },
            }
            i += 1;
        }
        assert(bytes_list(values@) =~= texts_bytes(accept_encodings@));
        assert forall|j: int| 0 <= j < accept_encodings@.len() implies is_header_value(
            #[trigger] texts_bytes(accept_encodings@)[j],
        ) by {
        }
        this.accept_encoding = values;
        Ok(this)
    }
}

/// Adds the headers that every request gets to the metadata.
fn common_request(metadata: http::HeaderMap, timeout_ms: Option<u64>) -> (r: Result<
    http::HeaderMap,
    Error,
>)
    ensures
        match r {
            Ok(headers) => header_groups(headers) == with_common(
                header_groups(metadata),
                timeout_ms,
            ),
            Err(e) => e@ == capacity_error(),
        },
        has_room(header_groups(metadata), 2) ==> r is Ok,
        r matches Ok(headers) ==> header_groups(headers).len() <= header_groups(metadata).len() + 2,
{
    let mut headers = metadata;
    proof {
        lemma_fixed_names();
        reveal_strlit("1");
    }
    let version = printable_bytes(PROTOCOL_VERSION_1);
    store(&mut headers, CONNECT_PROTOCOL_VERSION, version.as_slice(), true)?;
    if let Some(t) = timeout_ms {
        let text = decimal_string(t);
        proof {
            lemma_decimal_is_printable(t as nat);
        }
        let value = printable_bytes(text.as_str());
        store(&mut headers, CONNECT_TIMEOUT_MS, value.as_slice(), true)?;
    }
    Ok(headers)
}

/// Adds each of the values under the name.
fn append_values(headers: http::HeaderMap, name: &str, values: &Vec<Vec<u8>>) -> (r: Result<
    http::HeaderMap,
    Error,
>)
    requires
        is_header_name(name@),
        forall|i: int| 0 <= i < values@.len() ==> is_header_value((#[trigger] values@[i])@),
    ensures
        match r {
            Ok(after) => header_groups(after) == append_all(
                header_groups(headers),
                name@,
                bytes_list(values@),
            ),
            Err(e) => e@ == capacity_error(),
        },
        has_room(header_groups(headers), 2) ==> r is Ok,
        r matches Ok(after) ==> header_groups(after).len() <= header_groups(headers).len() + 1,
{
    let mut after = headers;
    let mut i: usize = 0;
    while i < values.len()
        invariant
            i <= values.len(),
            is_header_name(name@),
            forall|k: int| 0 <= k < values@.len() ==> is_header_value((#[trigger] values@[k])@),
            header_groups(after) == append_all(
                header_groups(headers),
                name@,
                bytes_list(values@).take(i as int),
            ),
            header_groups(after).len() <= header_groups(headers).len() + 1,
            i == 0 ==> header_groups(after).len() == header_groups(headers).len(),
            i > 0 ==> find_group(header_groups(after), name@) is Some,
        decreases values.len() - i,
    {
        let ghost upto = bytes_list(values@).take(i + 1);
        assert(upto.drop_last() =~= bytes_list(values@).take(i as int));
        match store(&mut after, name, values[i].as_slice(), false) {
            Ok(_) => {},
            Err(e) => {
                return Err(e);
            },
        }
        i += 1;
    }
    assert(bytes_list(values@).take(i as int) =~= bytes_list(values@));
    Ok(after)
}

/// Makes the URI of a request from its parts.
fn build_uri(
    scheme: Option<String>,
    authority: Option<String>,
    path_and_query: Option<String>,
) -> (r: Result<Uri, Error>)
    requires
        scheme matches Some(s) ==> scheme_accepted(s@),
        authority matches Some(a) ==> authority_accepted(a@),
    ensures
        match r {
            Ok(uri) => uri_of_parts(
                text_option(scheme),
                text_option(authority),
                text_option(path_and_query),
            ) == Ok::<UriView, ErrorView>(uri@),
            Err(e) => uri_of_parts(
                text_option(scheme),
                text_option(authority),
                text_option(path_and_query),
            ) == Err::<UriView, ErrorView>(e@),
        },
{
    if let Some(p) = &path_and_query {
        if let Err(e) = check_path_and_query(p.as_str()) {
            return Err(Error::InvalidUri(e));
        }
    }
    let s: Option<&str> = match &scheme {
        Some(s) => Some(s.as_str()),
        None => None,
    };
    let a: Option<&str> = match &authority {
        Some(a) => Some(a.as_str()),
        None => None,
    };
    let p: Option<&str> = match &path_and_query {
        Some(p) => Some(p.as_str()),
        None => None,
    };
    match assemble_uri(s, a, p) {
        Ok(uri) => Ok(uri),
        Err(e) => Err(Error::InvalidUriParts(e)),
    }
}

impl RequestBuilder {
    /// Makes the HTTP request of a unary or a streaming call.
    fn post_request<T>(self, body: T, streaming: bool) -> (r: Result<HttpRequest<T>, Error>)
        ensures
            match r {
                Ok(req) => {
                    &&& built_uri(self@, self@.path) == Ok::<UriView, ErrorView>(req.uri@)
                    &&& (self@.path is Some && is_plain_path(self@.path->Some_0)) ==> {
                        &&& req.uri@.path == self@.path->Some_0
                        &&& req.uri@.query is None
                    }
                    &&& header_groups(req.headers) == post_headers(self@, streaming)
                    &&& req.method is Post
                    &&& req.body == body
                },
                Err(e) => e@ == match built_uri(self@, self@.path) {
                    Err(refusal) => refusal,
                    Ok(_) => capacity_error(),
                },
            },
            built_uri(self@, self@.path) is Ok && has_room(self@.metadata, 6) ==> r is Ok,
    {
        proof {
            use_type_invariant(&self);
            lemma_fixed_names();
        }
        let RequestBuilder {
            scheme,
            authority,
            path,
            metadata,
            message_codec,
            timeout_ms,
            content_encoding,
            accept_encoding,
        } = self;
        proof {
            if path is Some && is_plain_path(path->Some_0@) {
                lemma_plain_path(scheme is Some, path->Some_0@);
            }
        }
        let uri = build_uri(scheme, authority, path)?;
        let mut headers = common_request(metadata, timeout_ms)?;
        if let Some(codec) = &message_codec {
            let content_type = join(
                if streaming {
                    STREAMING_CONTENT_TYPE_PREFIX
                } else {
                    CONTENT_TYPE_PREFIX
                },
                codec.as_str(),
            );
            proof {
                reveal_strlit("application/connect+");
                reveal_strlit("application/");
                lemma_token_is_printable(codec@);
            }
            let value = printable_bytes(content_type.as_str());
            store(&mut headers, CONTENT_TYPE, value.as_slice(), true)?;
        }
        if let Some(encoding) = &content_encoding {
            proof {
                lemma_token_is_printable(encoding@);
            }
            let value = printable_bytes(encoding.as_str());
            store(
                &mut headers,
                if streaming {
                    CONNECT_CONTENT_ENCODING
                } else {
                    CONTENT_ENCODING
                },
                value.as_slice(),
                true,
            )?;
        }
        let headers = append_values(
            headers,
            if streaming {
                CONNECT_ACCEPT_ENCODING
            } else {
                ACCEPT_ENCODING
            },
            &accept_encoding,
        )?;
        Ok(HttpRequest { method: Method::Post, uri, headers, body })
    }

    /// Builds a [`UnaryRequest`]: a POST request with the protocol version,
    /// the timeout if one is set, the content type `application/` and the
    /// codec, the content encoding if one is set, and one `accept-encoding`
    /// for each accepted encoding, in order.
    pub fn unary<T>(self, body: T) -> (r: Result<UnaryRequest<T>, Error>)
        ensures
            match r {
                Ok(req) => {
                    &&& built_uri(self@, self@.path) == Ok::<UriView, ErrorView>(
                        req.request().uri@,
                    )
                    &&& (self@.path is Some && is_plain_path(self@.path->Some_0)) ==> {
                        &&& req.request().uri@.path == self@.path->Some_0
                        &&& req.request().uri@.query is None
                    }
                    &&& header_groups(req.request().headers) == post_headers(self@, false)
                    &&& req.request().method is Post
                    &&& req.request().body == body
                },
                Err(e) => e@ == match built_uri(self@, self@.path) {
                    Err(refusal) => refusal,
                    Ok(_) => capacity_error(),
                },
            },
            built_uri(self@, self@.path) is Ok && has_room(self@.metadata, 6) ==> r is Ok,
    {
        match self.post_request(body, false) {
            Ok(req) => Ok(UnaryRequest::new(req)),
            Err(e) => Err(e),
        }
    }

    /// Builds a [`StreamingRequest`]: a POST request with the protocol
    /// version, the timeout if one is set, the content type
    /// `application/connect+` and the codec, and the encodings under
    /// `connect-content-encoding` and `connect-accept-encoding`.
    pub fn streaming<T>(self, body: T) -> (r: Result<StreamingRequest<T>, Error>)
        ensures
            match r {
                Ok(req) => {
                    &&& built_uri(self@, self@.path) == Ok::<UriView, ErrorView>(
                        req.request().uri@,
                    )
                    &&& (self@.path is Some && is_plain_path(self@.path->Some_0)) ==> {
                        &&& req.request().uri@.path == self@.path->Some_0
                        &&& req.request().uri@.query is None
                    }
                    &&& header_groups(req.request().headers) == post_headers(self@, true)
                    &&& req.request().method is Post
                    &&& req.request().body == body
                },
                Err(e) => e@ == match built_uri(self@, self@.path) {
                    Err(refusal) => refusal,
                    Ok(_) => capacity_error(),
                },
            },
            built_uri(self@, self@.path) is Ok && has_room(self@.metadata, 6) ==> r is Ok,
    {
        match self.post_request(body, true) {
            Ok(req) => Ok(StreamingRequest::new(req)),
            Err(e) => Err(e),
        }
    }

    /// Builds a [`UnaryGetRequest`]: a GET request without a body, whose
    /// query carries the message in URL-safe base64, the protocol version,
    /// the codec and, if one is set, the content encoding. A path and a
    /// codec must have been set.
    pub fn unary_get(self, message: &[u8]) -> (r: Result<UnaryGetRequest, Error>)
        ensures
            match r {
                Ok(req) => {
                    &&& get_uri(self@, message@) == Ok::<UriView, ErrorView>(req.request().uri@)
                    &&& header_groups(req.request().headers) == get_headers(self@)
                    &&& req.request().method is Get
                    &&& req.query() == form_pairs(query_bytes(req.request().uri@.query))
                    &&& is_plain_path(self@.path->Some_0) ==> {
                        &&& req.request().uri@.path == self@.path->Some_0
                        &&& req.request().uri@.query == Some(
                            form_text(
                                get_query(
                                    self@.message_codec->Some_0,
                                    self@.content_encoding,
                                    message@,
                                ),
                            ),
                        )
                    }
                    &&& message_of(
                        get_query(
                            self@.message_codec->Some_0,
                            self@.content_encoding,
                            message@,
                        ),
                    ) == Ok::<Seq<u8>, ErrorView>(message@)
                },
                Err(e) => e@ == match get_uri(self@, message@) {
                    Err(refusal) => refusal,
                    Ok(_) => capacity_error(),
                },
            },
            get_uri(self@, message@) is Ok && has_room(self@.metadata, 4) ==> r is Ok,
    {
        proof {
            use_type_invariant(&self);
            lemma_fixed_names();
        }
        let RequestBuilder {
            scheme,
            authority,
            path,
            metadata,
            message_codec,
            timeout_ms,
            content_encoding,
            accept_encoding,
        } = self;
        let path = match path {
            Some(path) => path,
            None => {
                return Err(Error::invalid_request("path required"));
            },
        };
        let codec = match message_codec {
            Some(codec) => codec,
            None => {
                return Err(Error::invalid_request("message codec required"));
            },
        };
        let ghost wanted = get_query(codec@, text_option(content_encoding), message@);
        let mut pairs: Vec<(String, String)> = Vec::new();
        let encoded = url_safe_encode(message);
        proof {
            lemma_written_message(wanted, encoded@, message@);
        }
        pairs.push(("message".to_owned(), encoded));
        pairs.push(("base64".to_owned(), "1".to_owned()));
        pairs.push(("connect".to_owned(), "v1".to_owned()));
        pairs.push(("encoding".to_owned(), codec));
        if let Some(encoding) = content_encoding {
            pairs.push(("compression".to_owned(), encoding));
        }
        assert(text_entry_list(pairs@) =~= wanted);
        let query = serialize_form(&pairs);
        proof {
            reveal_strlit("?");
            assert("?"@ =~= seq!['?']);
            assert forall|i: int| 0 <= i < query@.len() implies query@[i] != '#' by {
                assert(is_form_char(query@[i]));
            }
            lemma_first_position(query@, '#');
            if is_plain_path(path@) {
                lemma_path_with_query(scheme is Some, path@, query@);
            }
        }
        let path_and_query = path.concat("?").concat(query.as_str());
        let uri = build_uri(scheme, authority, Some(path_and_query))?;
        let headers = common_request(metadata, timeout_ms)?;
        let headers = append_values(headers, ACCEPT_ENCODING, &accept_encoding)?;
        Ok(UnaryGetRequest::new(HttpRequest { method: Method::Get, uri, headers, body: () }))
    }
}

} // verus!

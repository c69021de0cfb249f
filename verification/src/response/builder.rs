//! Building responses: a builder gathers a status, metadata, a message
//! codec and a content encoding, and makes a unary or a streaming response
//! with the headers that the protocol asks for.

use vstd::prelude::*;
use crate::common::{
    invalid_request, is_http_token, is_valid_http_token, lemma_fixed_names, text_option,
    CONNECT_CONTENT_ENCODING, CONTENT_ENCODING, CONTENT_TYPE, CONTENT_TYPE_PREFIX,
    STREAMING_CONTENT_TYPE_PREFIX,
};
use crate::headers::{groups_append, groups_insert, has_room, header_groups, header_map_new, Groups};
use crate::metadata::{
    ascii_entry_of, binary_entry_of, capacity_error, printable_bytes, store, Metadata,
};
use crate::request::builder::{content_type_text, lemma_token_is_printable};
use crate::response::{HttpResponse, StreamingResponse, UnaryResponse};
use crate::text::{ascii_bytes, join, lemma_char_range, lower_text, to_lower};
use crate::Error;

verus! {

/// The status of a response for which none was set.
pub const DEFAULT_STATUS: u16 = 200;

/// A builder of responses.
#[derive(Debug)]
pub struct ResponseBuilder {
    status: u16,
    metadata: http::HeaderMap,
    message_codec: Option<String>,
    content_encoding: Option<String>,
}

/// What a builder of responses has gathered.
pub ghost struct ResponseBuilderView {
    pub status: u16,
    pub metadata: Groups,
    pub message_codec: Option<Seq<char>>,
    pub content_encoding: Option<Seq<char>>,
}

impl View for ResponseBuilder {
    type V = ResponseBuilderView;

    closed spec fn view(&self) -> ResponseBuilderView {
        ResponseBuilderView {
            status: self.status,
            metadata: header_groups(self.metadata),
            message_codec: text_option(self.message_codec),
            content_encoding: text_option(self.content_encoding),
        }
    }
}

/// A builder of responses that has gathered nothing: the status is 200.
pub open spec fn empty_response_builder() -> ResponseBuilderView {
    ResponseBuilderView {
        status: DEFAULT_STATUS,
        metadata: Seq::empty(),
        message_codec: None,
        content_encoding: None,
    }
}

/// The headers of a response: the metadata, the content type where a codec
/// is set, and the content encoding where one is set. A streaming response
/// names its encoding under `connect-content-encoding`.
pub open spec fn response_headers(b: ResponseBuilderView, streaming: bool) -> Groups {
    let typed = match b.message_codec {
        Some(codec) => groups_insert(
            b.metadata,
            CONTENT_TYPE@,
            ascii_bytes(content_type_text(codec, streaming)),
        ),
        None => b.metadata,
    };
    match b.content_encoding {
        Some(encoding) => groups_insert(
            typed,
            if streaming {
                CONNECT_CONTENT_ENCODING@
            } else {
                CONTENT_ENCODING@
            },
            ascii_bytes(encoding),
        ),
        None => typed,
    }
}

/// Whether a builder owes a response: it does where it sets no header of
/// its own, or the metadata has room for the two that it may set.
pub open spec fn is_owed(b: ResponseBuilderView) -> bool {
    (b.message_codec is None && b.content_encoding is None) || has_room(b.metadata, 2)
}

impl Default for ResponseBuilder {
    /// A builder that has gathered nothing.
    fn default() -> (r: Self)
        ensures
            r@ == empty_response_builder(),
    {
        ResponseBuilder {
            status: DEFAULT_STATUS,
            metadata: header_map_new(),
            message_codec: None,
            content_encoding: None,
        }
    }
}

impl ResponseBuilder {
    #[verifier::type_invariant]
    spec fn well_formed(self) -> bool {
        &&& self.message_codec matches Some(c) ==> is_http_token(c@)
        &&& self.content_encoding matches Some(e) ==> is_http_token(e@)
    }

    /// Sets the response status code.
    pub fn status(self, status: u16) -> (r: Self)
        ensures
            r@ == (ResponseBuilderView { status, ..self@ }),
    {
        proof {
            use_type_invariant(&self);
        }
        let mut this = self;
        this.status = status;
        this
    }

    /// Appends ASCII metadata to the response.
    pub fn ascii_metadata(self, key: &str, val: &str) -> (r: Result<Self, Error>)
        ensures
            match r {
                Ok(b) => ascii_entry_of(key@, val@) matches Ok(entry) && b@
                    == (ResponseBuilderView {
                    metadata: groups_append(self@.metadata, entry.0, entry.1),
                    ..self@
                }),
                Err(e) => e@ == match ascii_entry_of(key@, val@) {
                    Err(refusal) => refusal,
                    Ok(_) => capacity_error(),
                },
            },
            ascii_entry_of(key@, val@) is Ok && has_room(self@.metadata, 1) ==> r is Ok,
    {
        proof {
            use_type_invariant(&self);
        }
        let ResponseBuilder { status, metadata, message_codec, content_encoding } = self;
        let mut metadata = metadata;
        match metadata.append_ascii(key, val) {
            Ok(_) => Ok(ResponseBuilder { status, metadata, message_codec, content_encoding }),
            Err(e) => Err(e),
        }
    }

    /// Appends binary metadata to the response.
    pub fn binary_metadata(self, key: &str, val: &[u8]) -> (r: Result<Self, Error>)
        ensures
            match r {
                Ok(b) => binary_entry_of(key@, val@) matches Ok(entry) && b@
                    == (ResponseBuilderView {
                    metadata: groups_append(self@.metadata, entry.0, entry.1),
                    ..self@
                }),
                Err(e) => e@ == match binary_entry_of(key@, val@) {
                    Err(refusal) => refusal,
                    Ok(_) => capacity_error(),
                },
            },
            binary_entry_of(key@, val@) is Ok && has_room(self@.metadata, 1) ==> r is Ok,
    {
        proof {
            use_type_invariant(&self);
        }
        let ResponseBuilder { status, metadata, message_codec, content_encoding } = self;
        let mut metadata = metadata;
        match metadata.append_binary(key, val) {
            Ok(_) => Ok(ResponseBuilder { status, metadata, message_codec, content_encoding }),
            Err(e) => Err(e),
        }
    }

    /// Sets the message codec for this response.
    ///
    /// Typical codecs are 'json' and 'proto', corresponding to the
    /// `content-type`s `application/json` and `application/proto`. The
    /// codec must be an HTTP token; it is kept in lower case.
    ///
    /// The caller is responsible for making sure the response payload matches
    /// this message codec.
    pub fn message_codec(self, message_codec: &str) -> (r: Result<Self, Error>)
        ensures
            match r {
                Ok(b) => is_http_token(message_codec@) && b@ == (ResponseBuilderView {
                    message_codec: Some(lower_text(message_codec@)),
                    ..self@
                }),
                Err(e) => !is_http_token(message_codec@) && e@ == invalid_request(
                    "invalid message codec"@,
                ),
            },
    {
        proof {
            use_type_invariant(&self);
        }
        let mut this = self;
        if !is_valid_http_token(message_codec) {
            return Err(Error::invalid_request("invalid message codec"));
        }
        proof {
            assert forall|i: int| 0 <= i < message_codec@.len() implies '\0'
                <= #[trigger] message_codec@[i] <= '\u{7f}' by {
                lemma_char_range(message_codec@[i]);
            }
        }
        this.message_codec = Some(to_lower(message_codec));
        Ok(this)
    }

    /// Sets the response content encoding (e.g. compression), which must be
    /// an HTTP token.
    pub fn content_encoding(self, content_encoding: &str) -> (r: Result<Self, Error>)
        ensures
            match r {
                Ok(b) => is_http_token(content_encoding@) && b@ == (ResponseBuilderView {
                    content_encoding: Some(content_encoding@),
                    ..self@
                }),
                Err(e) => !is_http_token(content_encoding@) && e@ == invalid_request(
                    "invalid content encoding"@,
                ),
            },
    {
        proof {
            use_type_invariant(&self);
        }
        let mut this = self;
        if !is_valid_http_token(content_encoding) {
            return Err(Error::invalid_request("invalid content encoding"));
        }
        this.content_encoding = Some(content_encoding.to_owned());
        Ok(this)
    }

    /// Makes the HTTP response of a unary or a streaming call.
    fn response<T>(self, body: T, streaming: bool) -> (r: Result<HttpResponse<T>, Error>)
        ensures
            match r {
                Ok(resp) => {
                    &&& resp.status == self@.status
                    &&& header_groups(resp.headers) == response_headers(self@, streaming)
                    &&& resp.body == body
                },
                Err(e) => e@ == capacity_error(),
            },
            is_owed(self@) ==> r is Ok,
    {
        proof {
            use_type_invariant(&self);
            lemma_fixed_names();
        }
        let ResponseBuilder { status, metadata, message_codec, content_encoding } = self;
        let mut headers = metadata;
        if let Some(codec) = &message_codec {
            let content_type = join(
                if streaming {
                    STREAMING_CONTENT_TYPE_PREFIX
                } else {
                    CONTENT_TYPE_PREFIX
                },
                codec.as_str(),
            );
            proof {
                reveal_strlit("application/connect+");
                reveal_strlit("application/");
                lemma_token_is_printable(codec@);
            }
            let value = printable_bytes(content_type.as_str());
            store(&mut headers, CONTENT_TYPE, value.as_slice(), true)?;
        }
        if let Some(encoding) = &content_encoding {
            proof {
                lemma_token_is_printable(encoding@);
            }
            let value = printable_bytes(encoding.as_str());
            store(
                &mut headers,
                if streaming {
                    CONNECT_CONTENT_ENCODING
                } else {
                    CONTENT_ENCODING
                },
                value.as_slice(),
                true,
            )?;
        }
        Ok(HttpResponse { status, headers, body })
    }

    /// Builds a [`UnaryResponse`]: the content type is `application/` and
    /// the codec, and the content encoding stands under `content-encoding`.
    pub fn unary<T>(self, body: T) -> (r: Result<UnaryResponse<T>, Error>)
        ensures
            match r {
                Ok(resp) => {
                    &&& resp.response().status == self@.status
                    &&& header_groups(resp.response().headers) == response_headers(self@, false)
                    &&& resp.response().body == body
                },
                Err(e) => e@ == capacity_error(),
            },
            is_owed(self@) ==> r is Ok,
    {
        match self.response(body, false) {
            Ok(resp) => Ok(UnaryResponse::new(resp)),
            Err(e) => Err(e),
        }
    }

    /// Builds a [`StreamingResponse`]: the content type is
    /// `application/connect+` and the codec, and the content encoding stands
    /// under `connect-content-encoding`.
    pub fn streaming<T>(self, body: T) -> (r: Result<StreamingResponse<T>, Error>)
        ensures
            match r {
                Ok(resp) => {
                    &&& resp.response().status == self@.status
                    &&& header_groups(resp.response().headers) == response_headers(self@, true)
                    &&& resp.response().body == body
                },
                Err(e) => e@ == capacity_error(),
            },
            is_owed(self@) ==> r is Ok,
    {
        match self.response(body, true) {
            Ok(resp) => Ok(StreamingResponse::new(resp)),
            Err(e) => Err(e),
        }
    }
}

} // verus!

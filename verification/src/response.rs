//! Responses: the two shapes of a Connect response, what can be read from
//! each, and their validation against what a request negotiated.

use vstd::prelude::*;
use crate::common::{
    header_text_of, lemma_fixed_names, streaming_codec_of, streaming_message_codec, text_option,
    text_result, unary_codec_of, unary_message_codec, CONNECT_CONTENT_ENCODING, CONTENT_ENCODING,
    CONTENT_ENCODING_IDENTITY,
};
use crate::headers::{header_groups, Groups};
use crate::json::json_parse;
use crate::metadata::text_list;
use crate::request::{
    accept_encoding_of, header_value_text, message_codec_of, unit_result, ConnectRequest,
};
use crate::response::error::{
    decode_error_body, error_of_error, error_of_parts, has_json_type, response_error_body,
    ConnectError,
};
use crate::text::str_eq;
use crate::{Error, ErrorView};

pub mod builder;
pub mod error;

verus! {

/// An HTTP response as the protocol reads it.
#[derive(Debug)]
pub struct HttpResponse<T> {
    pub status: u16,
    pub headers: http::HeaderMap,
    pub body: T,
}

/// What the protocol reads from a response.
pub ghost struct ResponseView {
    pub streaming: bool,
    pub status: u16,
    pub headers: Groups,
}

/// Options for [`ConnectResponse::validate`].
#[derive(Debug)]
pub struct ValidateOpts {
    /// If given, the response message codec must match.
    pub message_codec: Option<String>,
    /// If given, the response content encoding must match (or be 'identity').
    pub accept_encoding: Option<Vec<String>>,
}

/// The mathematical content of [`ValidateOpts`].
pub ghost struct ValidateOptsView {
    pub message_codec: Option<Seq<char>>,
    pub accept_encoding: Option<Seq<Seq<char>>>,
}

impl View for ValidateOpts {
    type V = ValidateOptsView;

    open spec fn view(&self) -> ValidateOptsView {
        ValidateOptsView {
            message_codec: text_option(self.message_codec),
            accept_encoding: match self.accept_encoding {
                Some(list) => Some(text_list(list@)),
                None => None,
            },
        }
    }
}

impl Default for ValidateOpts {
    /// Options that ask for nothing.
    fn default() -> (r: Self)
        ensures
            r@ == (ValidateOptsView { message_codec: None, accept_encoding: None }),
    {
        ValidateOpts { message_codec: None, accept_encoding: None }
    }
}

impl ValidateOpts {
    /// The options that a request asks for: its message codec, if it has
    /// one, and the encodings that it accepts.
    pub fn from_request<R: ConnectRequest>(req: &R) -> (r: Self)
        ensures
            r@ == (ValidateOptsView {
                message_codec: match message_codec_of(req.parts()) {
                    Ok(codec) => Some(codec),
                    Err(_) => None,
                },
                accept_encoding: Some(accept_encoding_of(req.parts())),
            }),
    {
        let message_codec = match req.message_codec() {
            Ok(codec) => Some(codec),
            Err(_) => None,
        };
        let accept_encoding = Some(req.accept_encoding());
        ValidateOpts { message_codec, accept_encoding }
    }
}

/// Whether a status is one of success: 200 to 299.
pub open spec fn is_success(status: u16) -> bool {
    200 <= status < 300
}

/// The message codec of a response, or why it has none.
pub open spec fn response_codec_of(resp: ResponseView) -> Result<Seq<char>, ErrorView> {
    if resp.streaming {
        streaming_codec_of(resp.headers)
    } else {
        unary_codec_of(resp.headers)
    }
}

/// The content encoding of a response.
pub open spec fn response_encoding_of(resp: ResponseView) -> Option<Seq<char>> {
    if resp.streaming {
        header_text_of(resp.headers, CONNECT_CONTENT_ENCODING@)
    } else {
        header_text_of(resp.headers, CONTENT_ENCODING@)
    }
}

/// Whether a content encoding is acceptable: `identity` always is, and any
/// other is where no list is given or the list holds it.
pub open spec fn encoding_acceptable(encoding: Seq<char>, accept: Option<Seq<Seq<char>>>) -> bool {
    encoding == CONTENT_ENCODING_IDENTITY@ || match accept {
        Some(list) => list.contains(encoding),
        None => true,
    }
}

/// Whether a response is valid under the options: it has a message codec,
/// which is the expected one where one is expected, and its content
/// encoding, if it has one, is acceptable. The first failure is reported.
pub open spec fn response_validation_of(resp: ResponseView, opts: ValidateOptsView) -> Result<
    (),
    ErrorView,
> {
    match response_codec_of(resp) {
        Err(e) => Err(e),
        Ok(codec) => if opts.message_codec matches Some(expected) && codec != expected {
            Err(ErrorView::UnexpectedMessageCodec(codec))
        } else {
            match response_encoding_of(resp) {
                Some(encoding) => if encoding_acceptable(encoding, opts.accept_encoding) {
                    Ok(())
                } else {
                    Err(ErrorView::UnacceptableEncoding(encoding))
                },
                None => Ok(()),
            }
        },
    }
}

/// A response whose codec is not the expected one fails validation with
/// that codec; a response of which no codec is expected passes where its
/// content encoding, if it has one, is acceptable.
pub proof fn lemma_validation_by_codec(resp: ResponseView, opts: ValidateOptsView)
    requires
        response_codec_of(resp) is Ok,
    ensures
        (opts.message_codec matches Some(expected) && expected != response_codec_of(resp)->Ok_0)
            ==> response_validation_of(resp, opts) == Err::<(), ErrorView>(
            ErrorView::UnexpectedMessageCodec(response_codec_of(resp)->Ok_0),
        ),
        (opts.message_codec is None && (response_encoding_of(resp) matches Some(encoding)
            ==> encoding_acceptable(encoding, opts.accept_encoding)))
            ==> response_validation_of(resp, opts) is Ok,
{
}

/// A Connect response.
pub trait ConnectResponse {
    /// What the protocol reads from this response.
    spec fn parts(&self) -> ResponseView;

    /// Returns the status code.
    fn status(&self) -> (r: u16)
        ensures
            r == self.parts().status,
    ;

    /// Returns the message codec.
    fn message_codec(&self) -> (r: Result<String, Error>)
        ensures
            text_result(r) == response_codec_of(self.parts()),
    ;

    /// Returns the content encoding.
    fn content_encoding(&self) -> (r: Option<String>)
        ensures
            text_option(r) == response_encoding_of(self.parts()),
    ;

    /// Returns a reference to the metadata.
    fn metadata(&self) -> (r: &http::HeaderMap)
        ensures
            header_groups(*r) == self.parts().headers,
    ;

    /// Validates the response.
    fn validate(&self, opts: &ValidateOpts) -> (r: Result<(), Error>)
        ensures
            unit_result(r) == response_validation_of(self.parts(), opts@),
    ;
}

/// Whether the list holds the text.
fn list_contains(list: &Vec<String>, text: &str) -> (r: bool)
    ensures
        r == text_list(list@).contains(text@),
{
    let mut i: usize = 0;
    while i < list.len()
        invariant
            i <= list.len(),
            forall|j: int| 0 <= j < i ==> text_list(list@)[j] != text@,
        decreases list.len() - i,
    {
        if str_eq(list[i].as_str(), text) {
            assert(text_list(list@)[i as int] == text@);
            return true;
        }
        i += 1;
    }
    false
}

/// Checks a codec and a content encoding against the options.
fn check_response(
    codec: Result<String, Error>,
    encoding: Option<String>,
    opts: &ValidateOpts,
) -> (r: Result<(), Error>)
    ensures
        unit_result(r) == match text_result(codec) {
            Err(e) => Err::<(), ErrorView>(e),
            Ok(c) => if opts@.message_codec matches Some(expected) && c != expected {
                Err::<(), ErrorView>(ErrorView::UnexpectedMessageCodec(c))
            } else {
                match text_option(encoding) {
                    Some(e) => if encoding_acceptable(e, opts@.accept_encoding) {
                        Ok::<(), ErrorView>(())
                    } else {
                        Err::<(), ErrorView>(ErrorView::UnacceptableEncoding(e))
                    },
                    None => Ok::<(), ErrorView>(()),
                }
            },
        },
{
    let codec = match codec {
        Ok(codec) => codec,
        Err(e) => {
            return Err(e);
        },
    };
    if let Some(expected) = &opts.message_codec {
        if !str_eq(codec.as_str(), expected.as_str()) {
            return Err(Error::UnexpectedMessageCodec(codec));
        }
    }
    if let Some(encoding) = encoding {
        if !str_eq(encoding.as_str(), CONTENT_ENCODING_IDENTITY) {
            if let Some(accept) = &opts.accept_encoding {
                if !list_contains(accept, encoding.as_str()) {
                    return Err(Error::UnacceptableEncoding(encoding));
                }
            }
        }
    }
    Ok(())
}

/// A Connect unary response.
#[derive(Debug)]
pub struct UnaryResponse<T>(HttpResponse<T>);

impl<T> UnaryResponse<T> {
    /// The HTTP response behind this response.
    pub closed spec fn response(&self) -> HttpResponse<T> {
        self.0
    }

    /// Reads an HTTP response as a unary response.
    pub fn new(resp: HttpResponse<T>) -> (r: Self)
        ensures
            r.response() == resp,
    {
        UnaryResponse(resp)
    }

    /// Gives the HTTP response back.
    pub fn into_inner(self) -> (r: HttpResponse<T>)
        ensures
            r == self.response(),
    {
        self.0
    }

    /// The body of the response.
    pub fn body(&self) -> (r: &T)
        ensures
            *r == self.response().body,
    {
        &self.0.body
    }
}

impl<T> ConnectResponse for UnaryResponse<T> {
    open spec fn parts(&self) -> ResponseView {
        ResponseView {
            streaming: false,
            status: self.response().status,
            headers: header_groups(self.response().headers),
        }
    }

    fn status(&self) -> (r: u16) {
        self.0.status
    }

    fn message_codec(&self) -> (r: Result<String, Error>) {
        unary_message_codec(&self.0.headers)
    }

    fn content_encoding(&self) -> (r: Option<String>) {
        proof {
            lemma_fixed_names();
        }
        header_value_text(&self.0.headers, CONTENT_ENCODING)
    }

    fn metadata(&self) -> (r: &http::HeaderMap) {
        &self.0.headers
    }

    fn validate(&self, opts: &ValidateOpts) -> (r: Result<(), Error>) {
        check_response(self.message_codec(), self.content_encoding(), opts)
    }
}

/// What a unary response comes to: the error that it carries, or else the
/// error that its validation gives, or nothing.
///
/// A response carries an error where its status is not one of success, or
/// where it is typed as JSON and its body is an error body. A failed
/// validation counts as an error of the protocol too.
pub open spec fn outcome_of(resp: ResponseView, body: Seq<u8>, opts: ValidateOptsView) -> Result<
    (),
    ErrorView,
> {
    let said = response_error_body(resp.headers, body);
    if !is_success(resp.status) || said is Some {
        Err(ErrorView::ConnectError(error_of_parts(resp.status, resp.headers, said)))
    } else {
        match response_validation_of(resp, opts) {
            Err(e) => Err(ErrorView::ConnectError(error_of_error(e))),
            Ok(_) => Ok(()),
        }
    }
}

impl UnaryResponse<Vec<u8>> {
    /// Tells a response that succeeded from one that carries an error.
    ///
    /// The response is an error of the protocol where its status is not one
    /// of success, or where it is typed as JSON and its body is an error
    /// body; the code of the error then falls back to that of the status.
    /// Otherwise the response is validated against the options, and a
    /// failure there is made an error of the protocol as well. A response
    /// that passes is given back.
    pub fn result(self, validate_opts: &ValidateOpts) -> (r: Result<Self, Error>)
        ensures
            match r {
                Ok(resp) => resp.response() == self.response() && outcome_of(
                    self.parts(),
                    self.response().body@,
                    validate_opts@,
                ) is Ok,
                Err(e) => outcome_of(self.parts(), self.response().body@, validate_opts@) == Err::<
                    (),
                    ErrorView,
                >(e@),
            },
    {
        let said = if has_json_type(&self.0.headers) {
            match json_parse(self.0.body.as_slice()) {
                Some(json) => decode_error_body(&json),
                None => None,
            }
        } else {
            None
        };
        let success = 200 <= self.0.status && self.0.status < 300;
        if !success || said.is_some() {
            let HttpResponse { status, headers, body } = self.0;
            return Err(Error::ConnectError(ConnectError::from_body(status, headers, said)));
        }
        match self.validate(validate_opts) {
            Err(e) => Err(Error::ConnectError(ConnectError::from_error(e))),
            Ok(_) => Ok(self),
        }
    }
}

/// A Connect streaming response.
#[derive(Debug)]
pub struct StreamingResponse<T>(HttpResponse<T>);

impl<T> StreamingResponse<T> {
    /// The HTTP response behind this response.
    pub closed spec fn response(&self) -> HttpResponse<T> {
        self.0
    }

    /// Reads an HTTP response as a streaming response.
    pub fn new(resp: HttpResponse<T>) -> (r: Self)
        ensures
            r.response() == resp,
    {
        StreamingResponse(resp)
    }

    /// Gives the HTTP response back.
    pub fn into_inner(self) -> (r: HttpResponse<T>)
        ensures
            r == self.response(),
    {
        self.0
    }

    /// The body of the response.
    pub fn body(&self) -> (r: &T)
        ensures
            *r == self.response().body,
    {
        &self.0.body
    }
}

impl<T> ConnectResponse for StreamingResponse<T> {
    open spec fn parts(&self) -> ResponseView {
        ResponseView {
            streaming: true,
            status: self.response().status,
            headers: header_groups(self.response().headers),
        }
    }

    fn status(&self) -> (r: u16) {
        self.0.status
    }

    fn message_codec(&self) -> (r: Result<String, Error>) {
        streaming_message_codec(&self.0.headers)
    }

    fn content_encoding(&self) -> (r: Option<String>) {
        proof {
            lemma_fixed_names();
        }
        header_value_text(&self.0.headers, CONNECT_CONTENT_ENCODING)
    }

    fn metadata(&self) -> (r: &http::HeaderMap) {
        &self.0.headers
    }

    fn validate(&self, opts: &ValidateOpts) -> (r: Result<(), Error>) {
        check_response(self.message_codec(), self.content_encoding(), opts)
    }
}

} // verus!

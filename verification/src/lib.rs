//! The Connect RPC wire protocol: metadata rules, request and response
//! models, the canonical error model and the streaming envelope codec.

use vstd::prelude::*;
use crate::response::error::{ConnectError, ConnectErrorView};

pub mod common;
pub mod headers;
pub mod json;
pub mod metadata;
pub mod query;
pub mod request;
pub mod response;
pub mod stream;
pub mod text;
pub mod uri;

verus! {

/// What can go wrong in the protocol layer.
#[derive(Debug)]
pub enum Error {
    /// A text that should be base64 is not.
    Base64DecodeError(base64::DecodeError),
    /// The underlying byte source failed, or the framing of a body is broken.
    BodyError(String),
    /// The call failed with an error of the protocol.
    ConnectError(ConnectError),
    /// A request was built or read with invalid parts.
    InvalidRequest(String),
    /// A response was built or read with invalid parts.
    InvalidResponse(String),
    /// A metadata key or value breaks the rules of its kind.
    InvalidMetadata(&'static str),
    /// A text that should be a header name is none.
    InvalidHeaderName(http::header::InvalidHeaderName),
    /// Bytes that should be a header value are none.
    InvalidHeaderValue(http::header::InvalidHeaderValue),
    /// A text that should be a URI, or a part of one, is none.
    InvalidUri(http::uri::InvalidUri),
    /// The parts given cannot make a URI together.
    InvalidUriParts(http::uri::InvalidUriParts),
    /// The response's content encoding was not among the accepted ones.
    UnacceptableEncoding(String),
    /// The response's message codec is not the expected one.
    UnexpectedMessageCodec(String),
}

/// The mathematical content of an [`Error`].
pub ghost enum ErrorView {
    Base64DecodeError,
    BodyError(Seq<char>),
    ConnectError(ConnectErrorView),
    InvalidRequest(Seq<char>),
    InvalidResponse(Seq<char>),
    InvalidMetadata(Seq<char>),
    InvalidHeaderName,
    InvalidHeaderValue,
    InvalidUri,
    InvalidUriParts,
    UnacceptableEncoding(Seq<char>),
    UnexpectedMessageCodec(Seq<char>),
}

impl View for Error {
    type V = ErrorView;

    open spec fn view(&self) -> ErrorView {
        match self {
            Error::Base64DecodeError(_) => ErrorView::Base64DecodeError,
            Error::BodyError(m) => ErrorView::BodyError(m@),
            Error::ConnectError(e) => ErrorView::ConnectError(e@),
            Error::InvalidRequest(m) => ErrorView::InvalidRequest(m@),
            Error::InvalidResponse(m) => ErrorView::InvalidResponse(m@),
            Error::InvalidMetadata(m) => ErrorView::InvalidMetadata(m@),
            Error::InvalidHeaderName(_) => ErrorView::InvalidHeaderName,
            Error::InvalidHeaderValue(_) => ErrorView::InvalidHeaderValue,
            Error::InvalidUri(_) => ErrorView::InvalidUri,
            Error::InvalidUriParts(_) => ErrorView::InvalidUriParts,
            Error::UnacceptableEncoding(m) => ErrorView::UnacceptableEncoding(m@),
            Error::UnexpectedMessageCodec(m) => ErrorView::UnexpectedMessageCodec(m@),
        }
    }
}

impl Error {
    /// A body error with the given message.
    pub fn body(msg: &str) -> (e: Error)
        ensures
            e@ == ErrorView::BodyError(msg@),
    {
        Error::BodyError(msg.to_owned())
    }

    /// An invalid-request error with the given message.
    pub fn invalid_request(msg: &str) -> (e: Error)
        ensures
            e@ == ErrorView::InvalidRequest(msg@),
    {
        Error::InvalidRequest(msg.to_owned())
    }
}

} // verus!

//! The error model: the canonical codes, their fallback from an HTTP
//! status, and the error that a response carries as JSON.

use vstd::prelude::*;
use vstd::std_specs::convert::FromSpecImpl;
use vstd::string::*;
use vstd::utf8::encode_utf8;
use crate::common::{base64_bytes, base64_decode, lemma_fixed_names, CONTENT_TYPE};
use crate::headers::{first_value, header_groups, header_map_get, header_map_new, Groups};
use crate::json::{
    items_view, json_document, json_parse, lemma_json_view, member_of, members_view, JsonValue,
    JsonView, MemberView,
};
use crate::request::bytes_result;
use crate::response::HttpResponse;
use crate::text::{ascii_bytes, bytes_eq, join, quoted, quoted_text, str_eq};
use crate::{Error, ErrorView};

verus! {

/// ConnectCode represents categories of errors as codes.
#[derive(Clone, Copy, Debug, PartialEq, Eq, Structural)]
pub enum ConnectCode {
    /// The operation completed successfully; its name on the wire is `ok`.
    Success,
    /// The operation was cancelled.
    Canceled,
    /// Unknown error.
    Unknown,
    /// Client specified an invalid argument.
    InvalidArgument,
    /// Deadline expired before operation could complete.
    DeadlineExceeded,
    /// Some requested entity was not found.
    NotFound,
    /// Some entity that we attempted to create already exists.
    AlreadyExists,
    /// The caller does not have permission to execute the specified operation.
    PermissionDenied,
    /// Some resource has been exhausted.
    ResourceExhausted,
    /// The system is not in a state required for the operation's execution.
    FailedPrecondition,
    /// The operation was aborted.
    Aborted,
    /// Operation was attempted past the valid range.
    OutOfRange,
    /// Operation is not implemented or not supported.
    Unimplemented,
    /// Internal error.
    Internal,
    /// The service is currently unavailable.
    Unavailable,
    /// Unrecoverable data loss or corruption.
    DataLoss,
    /// The request does not have valid authentication credentials
    Unauthenticated,
}

/// The code that stands for an HTTP status where a response names none.
pub open spec fn code_of_status(status: u16) -> ConnectCode {
    if status == 400 {
        ConnectCode::Internal
    } else if status == 401 {
        ConnectCode::Unauthenticated
    } else if status == 403 {
        ConnectCode::PermissionDenied
    } else if status == 404 || status == 501 {
        ConnectCode::Unimplemented
    } else if status == 429 || status == 502 || status == 503 || status == 504 {
        ConnectCode::Unavailable
    } else {
        ConnectCode::Unknown
    }
}

/// The name of a code in JSON: lower case, with underscores.
pub open spec fn code_token(code: ConnectCode) -> Seq<char> {
    match code {
        ConnectCode::Success => "ok"@,
        ConnectCode::Canceled => "canceled"@,
        ConnectCode::Unknown => "unknown"@,
        ConnectCode::InvalidArgument => "invalid_argument"@,
        ConnectCode::DeadlineExceeded => "deadline_exceeded"@,
        ConnectCode::NotFound => "not_found"@,
        ConnectCode::AlreadyExists => "already_exists"@,
        ConnectCode::PermissionDenied => "permission_denied"@,
        ConnectCode::ResourceExhausted => "resource_exhausted"@,
        ConnectCode::FailedPrecondition => "failed_precondition"@,
        ConnectCode::Aborted => "aborted"@,
        ConnectCode::OutOfRange => "out_of_range"@,
        ConnectCode::Unimplemented => "unimplemented"@,
        ConnectCode::Internal => "internal"@,
        ConnectCode::Unavailable => "unavailable"@,
        ConnectCode::DataLoss => "data_loss"@,
        ConnectCode::Unauthenticated => "unauthenticated"@,
    }
}

/// The code that a name stands for, if it is the name of one.
pub open spec fn code_of_token(token: Seq<char>) -> Option<ConnectCode> {
    if exists|code: ConnectCode| code_token(code) == token {
        Some(choose|code: ConnectCode| code_token(code) == token)
    } else {
        None
    }
}

/// The length and the first character of a code's name, as one number.
spec fn token_mark(code: ConnectCode) -> int {
    match code {
        ConnectCode::Success => 2 * 256 + 'o' as int,
        ConnectCode::Canceled => 8 * 256 + 'c' as int,
        ConnectCode::Unknown => 7 * 256 + 'u' as int,
        ConnectCode::InvalidArgument => 16 * 256 + 'i' as int,
        ConnectCode::DeadlineExceeded => 17 * 256 + 'd' as int,
        ConnectCode::NotFound => 9 * 256 + 'n' as int,
        ConnectCode::AlreadyExists => 14 * 256 + 'a' as int,
        ConnectCode::PermissionDenied => 17 * 256 + 'p' as int,
        ConnectCode::ResourceExhausted => 18 * 256 + 'r' as int,
        ConnectCode::FailedPrecondition => 19 * 256 + 'f' as int,
        ConnectCode::Aborted => 7 * 256 + 'a' as int,
        ConnectCode::OutOfRange => 12 * 256 + 'o' as int,
        ConnectCode::Unimplemented => 13 * 256 + 'u' as int,
        ConnectCode::Internal => 8 * 256 + 'i' as int,
        ConnectCode::Unavailable => 11 * 256 + 'u' as int,
        ConnectCode::DataLoss => 9 * 256 + 'd' as int,
        ConnectCode::Unauthenticated => 15 * 256 + 'u' as int,
    }
}

/// The name of a code has the length and the first character of its mark.
proof fn lemma_token_mark(code: ConnectCode)
    ensures
        code_token(code).len() * 256 + code_token(code)[0] as int == token_mark(code),
{
    reveal_strlit("ok");
    reveal_strlit("canceled");
    reveal_strlit("unknown");
    reveal_strlit("invalid_argument");
    reveal_strlit("deadline_exceeded");
    reveal_strlit("not_found");
    reveal_strlit("already_exists");
    reveal_strlit("permission_denied");
    reveal_strlit("resource_exhausted");
    reveal_strlit("failed_precondition");
    reveal_strlit("aborted");
    reveal_strlit("out_of_range");
    reveal_strlit("unimplemented");
    reveal_strlit("internal");
    reveal_strlit("unavailable");
    reveal_strlit("data_loss");
    reveal_strlit("unauthenticated");
}

/// No two codes have the same name.
pub proof fn lemma_code_tokens_differ(a: ConnectCode, b: ConnectCode)
    requires
        code_token(a) == code_token(b),
    ensures
        a == b,
{
    lemma_token_mark(a);
    lemma_token_mark(b);
}

/// A code is read back from its name.
pub proof fn lemma_code_token_round_trip(code: ConnectCode)
    ensures
        code_of_token(code_token(code)) == Some(code),
{
    let found = choose|c: ConnectCode| code_token(c) == code_token(code);
    lemma_code_tokens_differ(found, code);
}

impl ConnectCode {
    /// The name of the code in JSON.
    pub fn as_str(&self) -> (r: &'static str)
        ensures
            r@ == code_token(*self),
    {
        match self {
            ConnectCode::Success => "ok",
            ConnectCode::Canceled => "canceled",
            ConnectCode::Unknown => "unknown",
            ConnectCode::InvalidArgument => "invalid_argument",
            ConnectCode::DeadlineExceeded => "deadline_exceeded",
            ConnectCode::NotFound => "not_found",
            ConnectCode::AlreadyExists => "already_exists",
            ConnectCode::PermissionDenied => "permission_denied",
            ConnectCode::ResourceExhausted => "resource_exhausted",
            ConnectCode::FailedPrecondition => "failed_precondition",
            ConnectCode::Aborted => "aborted",
            ConnectCode::OutOfRange => "out_of_range",
            ConnectCode::Unimplemented => "unimplemented",
            ConnectCode::Internal => "internal",
            ConnectCode::Unavailable => "unavailable",
            ConnectCode::DataLoss => "data_loss",
            ConnectCode::Unauthenticated => "unauthenticated",
        }
    }

    /// The code with the given name.
    pub fn from_token(token: &str) -> (r: Option<ConnectCode>)
        ensures
            r == code_of_token(token@),
    {
        let code = if str_eq(token, "ok") {
            ConnectCode::Success
        } else if str_eq(token, "canceled") {
            ConnectCode::Canceled
        } else if str_eq(token, "unknown") {
            ConnectCode::Unknown
        } else if str_eq(token, "invalid_argument") {
            ConnectCode::InvalidArgument
        } else if str_eq(token, "deadline_exceeded") {
            ConnectCode::DeadlineExceeded
        } else if str_eq(token, "not_found") {
            ConnectCode::NotFound
        } else if str_eq(token, "already_exists") {
            ConnectCode::AlreadyExists
        } else if str_eq(token, "permission_denied") {
            ConnectCode::PermissionDenied
        } else if str_eq(token, "resource_exhausted") {
            ConnectCode::ResourceExhausted
        } else if str_eq(token, "failed_precondition") {
            ConnectCode::FailedPrecondition
        } else if str_eq(token, "aborted") {
            ConnectCode::Aborted
        } else if str_eq(token, "out_of_range") {
            ConnectCode::OutOfRange
        } else if str_eq(token, "unimplemented") {
            ConnectCode::Unimplemented
        } else if str_eq(token, "internal") {
            ConnectCode::Internal
        } else if str_eq(token, "unavailable") {
            ConnectCode::Unavailable
        } else if str_eq(token, "data_loss") {
            ConnectCode::DataLoss
        } else if str_eq(token, "unauthenticated") {
            ConnectCode::Unauthenticated
        } else {
            assert forall|c: ConnectCode| code_token(c) != token@ by {}
            return None;
        };
        proof {
            assert(code_token(code) == token@);
            lemma_code_tokens_differ(choose|c: ConnectCode| code_token(c) == token@, code);
        }
        Some(code)
    }
}

impl From<u16> for ConnectCode {
    /// The code that stands for an HTTP status.
    fn from(status: u16) -> (code: ConnectCode) {
        if status == 400 {
            ConnectCode::Internal
        } else if status == 401 {
            ConnectCode::Unauthenticated
        } else if status == 403 {
            ConnectCode::PermissionDenied
        } else if status == 404 || status == 501 {
            ConnectCode::Unimplemented
        } else if status == 429 || status == 502 || status == 503 || status == 504 {
            ConnectCode::Unavailable
        } else {
            ConnectCode::Unknown
        }
    }
}

impl FromSpecImpl<u16> for ConnectCode {
    open spec fn obeys_from_spec() -> bool {
        true
    }

    open spec fn from_spec(status: u16) -> ConnectCode {
        code_of_status(status)
    }
}

/// The prefix that makes a type URL of the name of a detail's type.
pub const TYPE_URL_PREFIX: &'static str = "type.googleapis.com/";

/// The content type of an error body.
pub const ERROR_CONTENT_TYPE: &'static str = "application/json";

/// The message of an error made for a response that names none.
pub const REQUEST_INVALID: &'static str = "request invalid";

/// Connect error detail.
#[derive(Clone, Debug)]
pub struct ConnectErrorDetail {
    pub proto_type: String,
    pub value_base64: String,
}

/// The mathematical content of a [`ConnectErrorDetail`].
pub ghost struct DetailView {
    pub proto_type: Seq<char>,
    pub value_base64: Seq<char>,
}

impl View for ConnectErrorDetail {
    type V = DetailView;

    open spec fn view(&self) -> DetailView {
        DetailView { proto_type: self.proto_type@, value_base64: self.value_base64@ }
    }
}

impl ConnectErrorDetail {
    /// The URL of the detail's type: `type.googleapis.com/` and the name.
    pub fn type_url(&self) -> (r: String)
        ensures
            r@ == TYPE_URL_PREFIX@ + self.proto_type@,
    {
        join(TYPE_URL_PREFIX, self.proto_type.as_str())
    }

    /// The value of the detail, decoded from unpadded base64.
    pub fn value(&self) -> (r: Result<Vec<u8>, Error>)
        ensures
            bytes_result(r) == match base64_bytes(encode_utf8(self.value_base64@)) {
                Some(bytes) => Ok::<Seq<u8>, ErrorView>(bytes),
                None => Err::<Seq<u8>, ErrorView>(ErrorView::Base64DecodeError),
            },
    {
        base64_decode(self.value_base64.as_str().as_bytes())
    }
}

/// The contents of a list of details.
pub open spec fn details_view(details: Seq<ConnectErrorDetail>) -> Seq<DetailView> {
    details.map_values(|d: ConnectErrorDetail| d@)
}

/// A Connect error.
#[derive(Debug)]
pub struct ConnectError {
    code: Option<ConnectCode>,
    pub message: String,
    pub details: Vec<ConnectErrorDetail>,
    headers: http::HeaderMap,
}

/// The mathematical content of a [`ConnectError`].
pub ghost struct ConnectErrorView {
    pub code: Option<ConnectCode>,
    pub message: Seq<char>,
    pub details: Seq<DetailView>,
    pub headers: Groups,
}

impl View for ConnectError {
    type V = ConnectErrorView;

    closed spec fn view(&self) -> ConnectErrorView {
        ConnectErrorView {
            code: self.code,
            message: self.message@,
            details: details_view(self.details@),
            headers: header_groups(self.headers),
        }
    }
}

/// What the JSON body of an error response says.
pub ghost struct ErrorBodyView {
    pub code: Option<ConnectCode>,
    pub message: Seq<char>,
    pub details: Seq<DetailView>,
}

/// The error detail that a JSON value stands for: an object whose members
/// `type` and `value` are strings.
pub open spec fn detail_of(item: JsonView) -> Option<DetailView> {
    match item {
        JsonView::Object(members) => match (
            member_of(members, "type"@),
            member_of(members, "value"@),
        ) {
            (Some(JsonView::String(t)), Some(JsonView::String(v))) => Some(
                DetailView { proto_type: t, value_base64: v },
            ),
            _ => None,
        },
        _ => None,
    }
}

/// The error details that a list of JSON values stands for, if each of
/// them stands for one.
pub open spec fn details_of(items: Seq<JsonView>) -> Option<Seq<DetailView>>
    decreases items.len(),
{
    if items.len() == 0 {
        Some(Seq::empty())
    } else {
        match (details_of(items.drop_last()), detail_of(items.last())) {
            (Some(front), Some(detail)) => Some(front.push(detail)),
            _ => None,
        }
    }
}

/// The message of an error body: the member `message`, which must be a
/// string where it is present.
pub open spec fn body_message_of(members: Seq<MemberView>) -> Option<Seq<char>> {
    match member_of(members, "message"@) {
        None => Some(Seq::empty()),
        Some(JsonView::String(s)) => Some(s),
        Some(_) => None,
    }
}

/// The details of an error body: the member `details`, which must be an
/// array of details where it is present.
pub open spec fn body_details_of(members: Seq<MemberView>) -> Option<
    Seq<DetailView>,
> {
    match member_of(members, "details"@) {
        None => Some(Seq::empty()),
        Some(JsonView::Array(items)) => details_of(items),
        Some(_) => None,
    }
}

/// The code of an error body: the member `code`, where it is the name of a
/// code.
pub open spec fn body_code_of(members: Seq<MemberView>) -> Option<ConnectCode> {
    match member_of(members, "code"@) {
        Some(JsonView::String(s)) => code_of_token(s),
        _ => None,
    }
}

/// What a JSON value says as the body of an error response, if it is one:
/// an object with a message and details as described; a code that is
/// absent or not understood counts as none.
pub open spec fn error_body_of(json: JsonView) -> Option<ErrorBodyView> {
    match json {
        JsonView::Object(members) => match (body_message_of(members), body_details_of(members)) {
            (Some(message), Some(details)) => Some(
                ErrorBodyView { code: body_code_of(members), message, details },
            ),
            _ => None,
        },
        _ => None,
    }
}

/// What an optional JSON value says as the body of an error response.
pub open spec fn error_body_of_option(json: Option<&JsonValue>) -> Option<ErrorBodyView> {
    match json {
        Some(value) => error_body_of(value@),
        None => None,
    }
}

/// The error of a response with the given status and headers, whose body
/// said the given: the code falls back to that of the status, and without a
/// body the message is `request invalid`.
pub open spec fn error_of_parts(
    status: u16,
    headers: Groups,
    body: Option<ErrorBodyView>,
) -> ConnectErrorView {
    match body {
        Some(b) => ConnectErrorView {
            code: Some(
                match b.code {
                    Some(code) => code,
                    None => code_of_status(status),
                },
            ),
            message: b.message,
            details: b.details,
            headers,
        },
        None => ConnectErrorView {
            code: Some(code_of_status(status)),
            message: REQUEST_INVALID@,
            details: Seq::empty(),
            headers,
        },
    }
}

/// A response without an error body gives the code of its status and the
/// message `request invalid`; for the status 404 the code is unimplemented.
pub proof fn lemma_error_without_body(status: u16, headers: Groups)
    ensures
        error_of_parts(status, headers, None).code == Some(code_of_status(status)),
        error_of_parts(status, headers, None).message == REQUEST_INVALID@,
        error_of_parts(status, headers, None).details.len() == 0,
        error_of_parts(status, headers, None).headers == headers,
        code_of_status(404) == ConnectCode::Unimplemented,
{
}

/// Whether the first content type of the headers is `application/json`.
pub open spec fn is_json_typed(headers: Groups) -> bool {
    first_value(headers, CONTENT_TYPE@) == Some(ascii_bytes(ERROR_CONTENT_TYPE@))
}

/// What the body of a response says as an error body: something only where
/// the response is typed as JSON and the body is a JSON text that is an
/// error body.
pub open spec fn response_error_body(headers: Groups, body: Seq<u8>) -> Option<ErrorBodyView> {
    if is_json_typed(headers) {
        match json_document(body) {
            Some(json) => error_body_of(json),
            None => None,
        }
    } else {
        None
    }
}

/// The error that an error stands for: a Connect error itself; an internal
/// error for a response that is invalid or breaks what was negotiated,
/// which is named in the message; an unknown error for anything else.
pub open spec fn error_of_error(e: ErrorView) -> ConnectErrorView {
    match e {
        ErrorView::ConnectError(connect_error) => connect_error,
        ErrorView::InvalidResponse(_) => plain_error(ConnectCode::Internal, Seq::empty()),
        ErrorView::UnacceptableEncoding(encoding) => plain_error(
            ConnectCode::Internal,
            "unacceptable encoding "@ + quoted_text(encoding),
        ),
        ErrorView::UnexpectedMessageCodec(codec) => plain_error(
            ConnectCode::Internal,
            "unexpected message codec "@ + quoted_text(codec),
        ),
        _ => plain_error(ConnectCode::Unknown, Seq::empty()),
    }
}

/// An error with a code and a message, and nothing else.
pub open spec fn plain_error(code: ConnectCode, message: Seq<char>) -> ConnectErrorView {
    ConnectErrorView { code: Some(code), message, details: Seq::empty(), headers: Seq::empty() }
}

/// The text of an error: the name of its code, then a colon and the
/// message where there is one.
pub open spec fn error_text(e: ConnectErrorView) -> Seq<char> {
    let code = match e.code {
        Some(code) => code,
        None => ConnectCode::Unknown,
    };
    if e.message.len() == 0 {
        code_token(code)
    } else {
        code_token(code) + ": "@ + e.message
    }
}

/// The value of the member with the given name.
fn get_member<'a>(members: &'a Vec<(String, JsonValue)>, name: &str) -> (r: Option<&'a JsonValue>)
    ensures
        match r {
            Some(value) => member_of(members_view(members@), name@) == Some(value@),
            None => member_of(members_view(members@), name@) is None,
        },
{
    let ghost all = members_view(members@);
    let mut i: usize = members.len();
    assert(all.take(i as int) =~= all);
    while i > 0
        invariant
            i <= members.len(),
            all == members_view(members@),
            member_of(all, name@) == member_of(all.take(i as int), name@),
        decreases i,
    {
        let ghost front = all.take(i as int);
        assert(front.drop_last() =~= all.take(i - 1));
        assert(front.last() == (MemberView {
            name: members@[i - 1].0@,
            value: members@[i - 1].1@,
        }));
        if str_eq(members[i - 1].0.as_str(), name) {
            return Some(&members[i - 1].1);
        }
        i -= 1;
    }
    None
}

/// Reads one error detail.
fn decode_detail(item: &JsonValue) -> (r: Option<ConnectErrorDetail>)
    ensures
        match r {
            Some(detail) => detail_of(item@) == Some(detail@),
            None => detail_of(item@) is None,
        },
{
    proof {
        lemma_json_view(*item);
    }
    match item {
        JsonValue::Object(members) => {
            let proto_type = match get_member(members, "type") {
                Some(JsonValue::String(t)) => t.clone(),
                _ => {
                    return None;
                },
            };
            let value_base64 = match get_member(members, "value") {
                Some(JsonValue::String(v)) => v.clone(),
                _ => {
                    return None;
                },
            };
            Some(ConnectErrorDetail { proto_type, value_base64 })
        },
        _ => None,
    }
}

/// Reads a list of error details.
fn decode_details(items: &Vec<JsonValue>) -> (r: Option<Vec<ConnectErrorDetail>>)
    ensures
        match r {
            Some(details) => details_of(items_view(items@)) == Some(details_view(details@)),
            None => details_of(items_view(items@)) is None,
        },
{
    let ghost all = items_view(items@);
    let mut details: Vec<ConnectErrorDetail> = Vec::new();
    let mut i: usize = 0;
    assert(all.take(0) =~= Seq::<JsonView>::empty());
    assert(details_view(details@) =~= Seq::<DetailView>::empty());
    while i < items.len()
        invariant
            i <= items.len(),
            all == items_view(items@),
            details_of(all.take(i as int)) == Some(details_view(details@)),
        decreases items.len() - i,
    {
        let ghost done = details@;
        let ghost upto = all.take(i + 1);
        assert(upto.drop_last() =~= all.take(i as int));
        assert(upto.last() == items@[i as int]@);
        match decode_detail(&items[i]) {
            Some(detail) => {
                details.push(detail);
                assert(details_view(details@) =~= details_view(done).push(detail@));
            },
            None => {
                proof {
                    lemma_details_stay_unread(all, i + 1);
                }
                return None;
            },
        }
        i += 1;
    }
    assert(all.take(i as int) =~= all);
    Some(details)
}

/// Where a beginning of a list cannot be read as details, the list cannot.
proof fn lemma_details_stay_unread(items: Seq<JsonView>, n: int)
    requires
        0 <= n <= items.len(),
        details_of(items.take(n)) is None,
    ensures
        details_of(items) is None,
    decreases items.len() - n,
{
    if n == items.len() {
        assert(items.take(n) =~= items);
    } else {
        assert(items.take(n + 1).drop_last() =~= items.take(n));
        lemma_details_stay_unread(items, n + 1);
    }
}

/// The mathematical content of what was read from an error body.
pub open spec fn body_view(
    body: Option<(Option<ConnectCode>, String, Vec<ConnectErrorDetail>)>,
) -> Option<ErrorBodyView> {
    match body {
        Some((code, message, details)) => Some(
            ErrorBodyView { code, message: message@, details: details_view(details@) },
        ),
        None => None,
    }
}

/// Reads the body of an error response.
pub(crate) fn decode_error_body(json: &JsonValue) -> (r: Option<
    (Option<ConnectCode>, String, Vec<ConnectErrorDetail>),
>)
    ensures
        body_view(r) == error_body_of(json@),
{
    proof {
        lemma_json_view(*json);
    }
    match json {
        JsonValue::Object(members) => {
            let message = match get_member(members, "message") {
                None => String::new(),
                Some(JsonValue::String(s)) => s.clone(),
                Some(_) => {
                    return None;
                },
            };
            let details = match get_member(members, "details") {
                None => {
                    let none: Vec<ConnectErrorDetail> = Vec::new();
                    assert(details_view(none@) =~= Seq::<DetailView>::empty());
                    none
                },
                Some(value) => {
                    proof {
                        lemma_json_view(*value);
                    }
                    match value {
                        JsonValue::Array(items) => match decode_details(items) {
                            Some(details) => details,
                            None => {
                                return None;
                            },
                        },
                        _ => {
                            return None;
                        },
                    }
                },
            };
            let code = match get_member(members, "code") {
                Some(JsonValue::String(s)) => ConnectCode::from_token(s.as_str()),
                _ => None,
            };
            Some((code, message, details))
        },
        _ => None,
    }
}

impl ConnectError {
    /// An error with a code and a message.
    pub fn new(code: ConnectCode, message: &str) -> (r: Self)
        ensures
            r@ == plain_error(code, message@),
    {
        let details: Vec<ConnectErrorDetail> = Vec::new();
        assert(details_view(details@) =~= Seq::<DetailView>::empty());
        ConnectError {
            code: Some(code),
            message: message.to_owned(),
            details,
            headers: header_map_new(),
        }
    }

    /// The code of the error: unknown where it holds none.
    pub fn code(&self) -> (r: ConnectCode)
        ensures
            r == match self@.code {
                Some(code) => code,
                None => ConnectCode::Unknown,
            },
    {
        match self.code {
            Some(code) => code,
            None => ConnectCode::Unknown,
        }
    }

    /// The message of the error.
    pub fn message(&self) -> (r: &str)
        ensures
            r@ == self@.message,
    {
        self.message.as_str()
    }

    /// The details of the error.
    pub fn details(&self) -> (r: &Vec<ConnectErrorDetail>)
        ensures
            details_view(r@) == self@.details,
    {
        &self.details
    }

    /// The metadata of the response that the error came with.
    pub fn metadata(&self) -> (r: &http::HeaderMap)
        ensures
            header_groups(*r) == self@.headers,
    {
        &self.headers
    }

    /// The text of the error: the name of its code, then a colon and the
    /// message where there is one.
    pub fn to_string(&self) -> (r: String)
        ensures
            r@ == error_text(self@),
    {
        let code = self.code();
        if self.message.as_str().unicode_len() == 0 {
            code.as_str().to_owned()
        } else {
            join(code.as_str(), ": ").concat(self.message.as_str())
        }
    }

    /// The error of a response with the given status and headers, whose
    /// body said the given.
    pub(crate) fn from_body(
        status: u16,
        headers: http::HeaderMap,
        body: Option<(Option<ConnectCode>, String, Vec<ConnectErrorDetail>)>,
    ) -> (r: Self)
        ensures
            r@ == error_of_parts(status, header_groups(headers), body_view(body)),
    {
        match body {
            Some((code, message, details)) => {
                let code = match code {
                    Some(code) => code,
                    None => ConnectCode::from(status),
                };
                ConnectError { code: Some(code), message, details, headers }
            },
            None => {
                let details: Vec<ConnectErrorDetail> = Vec::new();
                assert(details_view(details@) =~= Seq::<DetailView>::empty());
                ConnectError {
                    code: Some(ConnectCode::from(status)),
                    message: REQUEST_INVALID.to_owned(),
                    details,
                    headers,
                }
            },
        }
    }

    /// The error of a response with the given status and headers, whose
    /// body, read as JSON, gave the given value.
    pub fn from_json(status: u16, headers: http::HeaderMap, json: Option<&JsonValue>) -> (r: Self)
        ensures
            r@ == error_of_parts(status, header_groups(headers), error_body_of_option(json)),
    {
        let body = match json {
            Some(value) => decode_error_body(value),
            None => None,
        };
        ConnectError::from_body(status, headers, body)
    }

    /// The error that a response stands for.
    ///
    /// Where the response is typed as JSON and its body is an error body,
    /// the error is what the body says, with the code of the status where
    /// the body names none. Otherwise the error has the code of the status
    /// and the message `request invalid`. The headers of the response
    /// become the metadata of the error.
    pub fn from_response(resp: HttpResponse<Vec<u8>>) -> (r: Self)
        ensures
            r@ == error_of_parts(
                resp.status,
                header_groups(resp.headers),
                response_error_body(header_groups(resp.headers), resp.body@),
            ),
    {
        let HttpResponse { status, headers, body } = resp;
        if has_json_type(&headers) {
            let json = json_parse(body.as_slice());
            ConnectError::from_json(status, headers, json.as_ref())
        } else {
            ConnectError::from_json(status, headers, None)
        }
    }

    /// The error that an error of this library stands for.
    pub fn from_error(err: Error) -> (r: Self)
        ensures
            r@ == error_of_error(err@),
    {
        proof {
            reveal_strlit("");
            assert(""@ =~= Seq::<char>::empty());
        }
        match err {
            Error::ConnectError(connect_error) => connect_error,
            Error::InvalidResponse(_) => ConnectError::new(ConnectCode::Internal, ""),
            Error::UnacceptableEncoding(encoding) => {
                let message = join("unacceptable encoding ", quoted(encoding.as_str()).as_str());
                ConnectError::new(ConnectCode::Internal, message.as_str())
            },
            Error::UnexpectedMessageCodec(codec) => {
                let message = join("unexpected message codec ", quoted(codec.as_str()).as_str());
                ConnectError::new(ConnectCode::Internal, message.as_str())
            },
            _ => ConnectError::new(ConnectCode::Unknown, ""),
        }
    }
}

/// Whether the first content type of the headers is `application/json`.
pub(crate) fn has_json_type(headers: &http::HeaderMap) -> (r: bool)
    ensures
        r == is_json_typed(header_groups(*headers)),
{
    proof {
        lemma_fixed_names();
        reveal_strlit("application/json");
    }

    match header_map_get(headers, CONTENT_TYPE) {
        Some(v) => {
            assert(is_ascii(ERROR_CONTENT_TYPE));
            let wanted = ERROR_CONTENT_TYPE.as_bytes();
            bytes_eq(v.as_slice(), wanted)
        },
        None => false,
    }
}

} // verus!

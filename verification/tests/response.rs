use connect_rpc::json::JsonValue;
use connect_rpc::metadata::Metadata;
use connect_rpc::request::builder::RequestBuilder;
use connect_rpc::response::builder::ResponseBuilder;
use connect_rpc::response::error::{ConnectCode, ConnectError, ConnectErrorDetail};
use connect_rpc::response::{
    ConnectResponse, HttpResponse, StreamingResponse, UnaryResponse, ValidateOpts,
};
use connect_rpc::Error;
use http::{HeaderMap, HeaderValue};

const ALL_CODES: [(ConnectCode, &str); 17] = [
    (ConnectCode::Success, "ok"),
    (ConnectCode::Canceled, "canceled"),
    (ConnectCode::Unknown, "unknown"),
    (ConnectCode::InvalidArgument, "invalid_argument"),
    (ConnectCode::DeadlineExceeded, "deadline_exceeded"),
    (ConnectCode::NotFound, "not_found"),
    (ConnectCode::AlreadyExists, "already_exists"),
    (ConnectCode::PermissionDenied, "permission_denied"),
    (ConnectCode::ResourceExhausted, "resource_exhausted"),
    (ConnectCode::FailedPrecondition, "failed_precondition"),
    (ConnectCode::Aborted, "aborted"),
    (ConnectCode::OutOfRange, "out_of_range"),
    (ConnectCode::Unimplemented, "unimplemented"),
    (ConnectCode::Internal, "internal"),
    (ConnectCode::Unavailable, "unavailable"),
    (ConnectCode::DataLoss, "data_loss"),
    (ConnectCode::Unauthenticated, "unauthenticated"),
];

fn response(status: u16, headers: &[(&str, &str)], body: &[u8]) -> HttpResponse<Vec<u8>> {
    let mut map = HeaderMap::new();
    for (k, v) in headers {
        map.append(
            http::header::HeaderName::from_bytes(k.as_bytes()).unwrap(),
            HeaderValue::from_str(v).unwrap(),
        );
    }
    HttpResponse { status, headers: map, body: body.to_vec() }
}

fn opts(codec: Option<&str>, accept: Option<&[&str]>) -> ValidateOpts {
    ValidateOpts {
        message_codec: codec.map(String::from),
        accept_encoding: accept.map(|l| l.iter().map(|s| s.to_string()).collect()),
    }
}

fn connect_error<T: std::fmt::Debug>(r: Result<T, Error>) -> ConnectError {
    match r {
        Err(Error::ConnectError(e)) => e,
        other => panic!("expected a connect error, got {other:?}"),
    }
}

#[test]
fn unexpected_codec_fails_validation() {
    let resp = UnaryResponse::new(response(200, &[("content-type", "application/json")], b""));
    match resp.validate(&opts(Some("proto"), None)) {
        Err(Error::UnexpectedMessageCodec(codec)) => assert_eq!(codec, "json"),
        other => panic!("expected an unexpected codec, got {other:?}"),
    }
    assert!(resp.validate(&opts(None, None)).is_ok());
    assert!(resp.validate(&ValidateOpts::default()).is_ok());
    assert!(resp.validate(&opts(Some("json"), None)).is_ok());
    assert!(matches!(
        resp.validate(&opts(Some("JSON"), None)),
        Err(Error::UnexpectedMessageCodec(_))
    ));
}

#[test]
fn content_encoding_must_be_acceptable() {
    let gzip = UnaryResponse::new(response(
        200,
        &[("content-type", "application/proto"), ("content-encoding", "gzip")],
        b"",
    ));
    assert!(gzip.validate(&opts(None, None)).is_ok());
    assert!(gzip.validate(&opts(None, Some(&["br", "gzip"]))).is_ok());
    match gzip.validate(&opts(None, Some(&["br"]))) {
        Err(Error::UnacceptableEncoding(encoding)) => assert_eq!(encoding, "gzip"),
        other => panic!("expected an unacceptable encoding, got {other:?}"),
    }
    assert!(matches!(gzip.validate(&opts(None, Some(&[]))), Err(Error::UnacceptableEncoding(_))));
    match gzip.validate(&opts(Some("json"), Some(&[]))) {
        Err(Error::UnexpectedMessageCodec(codec)) => assert_eq!(codec, "proto"),
        other => panic!("expected an unexpected codec, got {other:?}"),
    }

    let identity = UnaryResponse::new(response(
        200,
        &[("content-type", "application/proto"), ("content-encoding", "identity")],
        b"",
    ));
    assert!(identity.validate(&opts(None, Some(&[]))).is_ok());
    assert!(identity.validate(&opts(None, Some(&["gzip"]))).is_ok());

    let none = UnaryResponse::new(response(200, &[("content-type", "application/proto")], b""));
    assert!(none.validate(&opts(None, Some(&[]))).is_ok());
}

#[test]
fn streaming_response_reads_the_connect_names() {
    let resp = StreamingResponse::new(response(
        200,
        &[
            ("content-type", "application/connect+proto"),
            ("connect-content-encoding", "br"),
            ("content-encoding", "gzip"),
        ],
        b"",
    ));
    assert_eq!(resp.status(), 200);
    assert_eq!(resp.message_codec().unwrap(), "proto");
    assert_eq!(resp.content_encoding().as_deref(), Some("br"));
    assert!(resp.validate(&opts(Some("proto"), Some(&["br"]))).is_ok());
    assert!(matches!(
        resp.validate(&opts(Some("proto"), Some(&["gzip"]))),
        Err(Error::UnacceptableEncoding(_))
    ));
    let unary_typed =
        StreamingResponse::new(response(200, &[("content-type", "application/proto")], b""));
    assert!(matches!(unary_typed.validate(&opts(None, None)), Err(Error::InvalidRequest(_))));
}

#[test]
fn validation_needs_a_content_type() {
    let resp = UnaryResponse::new(response(200, &[], b""));
    match resp.validate(&opts(None, None)) {
        Err(Error::InvalidRequest(msg)) => assert_eq!(msg, "missing content-type"),
        other => panic!("expected an invalid request, got {other:?}"),
    }
}

#[test]
fn options_come_from_the_request() {
    let req = RequestBuilder::new()
        .path("/a/b")
        .unwrap()
        .message_codec("proto")
        .unwrap()
        .accept_encoding(vec!["gzip".to_string(), "br".to_string()])
        .unwrap()
        .unary(())
        .unwrap();
    let opts = ValidateOpts::from_request(&req);
    assert_eq!(opts.message_codec.as_deref(), Some("proto"));
    assert_eq!(opts.accept_encoding, Some(vec!["gzip".to_string(), "br".to_string()]));

    let bare = RequestBuilder::new().path("/a/b").unwrap().streaming(()).unwrap();
    let opts = ValidateOpts::from_request(&bare);
    assert_eq!(opts.message_codec, None);
    assert_eq!(opts.accept_encoding, Some(vec![]));
}

#[test]
fn status_404_without_error_body_is_unimplemented() {
    let error = ConnectError::from_response(response(404, &[("x-trace", "t1")], b"not found"));
    assert_eq!(error.code(), ConnectCode::Unimplemented);
    assert_eq!(error.message, "request invalid");
    assert!(error.details.is_empty());
    assert_eq!(error.metadata().get_ascii("x-trace").as_deref(), Some("t1"));
    assert_eq!(error.to_string(), "unimplemented: request invalid");
}

#[test]
fn status_falls_back_to_codes() {
    for (status, code) in [
        (400u16, ConnectCode::Internal),
        (401, ConnectCode::Unauthenticated),
        (403, ConnectCode::PermissionDenied),
        (404, ConnectCode::Unimplemented),
        (501, ConnectCode::Unimplemented),
        (429, ConnectCode::Unavailable),
        (502, ConnectCode::Unavailable),
        (503, ConnectCode::Unavailable),
        (504, ConnectCode::Unavailable),
        (500, ConnectCode::Unknown),
        (200, ConnectCode::Unknown),
        (402, ConnectCode::Unknown),
        (0, ConnectCode::Unknown),
        (u16::MAX, ConnectCode::Unknown),
    ] {
        assert_eq!(ConnectCode::from(status), code, "{status}");
        assert_eq!(ConnectError::from_response(response(status, &[], b"")).code(), code);
    }
}

#[test]
fn codes_have_their_names() {
    for (code, name) in ALL_CODES {
        assert_eq!(code.as_str(), name);
        assert_eq!(ConnectCode::from_token(name), Some(code));
    }
    for name in ["", "OK", "Ok", "not-found", "not_found ", "notfound", "cancelled"] {
        assert_eq!(ConnectCode::from_token(name), None, "{name:?}");
    }
}

#[test]
fn error_body_is_read_from_json() {
    let body = br#"{"code":"not_found","message":"no such thing","details":[{"type":"acme.v1.Info","value":"AQID","debug":{"x":[1,2]}},{"value":"","type":""}],"extra":null}"#;
    let error = ConnectError::from_response(response(
        500,
        &[("content-type", "application/json"), ("x-id", "7")],
        body,
    ));
    assert_eq!(error.code(), ConnectCode::NotFound);
    assert_eq!(error.message, "no such thing");
    assert_eq!(error.details.len(), 2);
    assert_eq!(error.details[0].proto_type, "acme.v1.Info");
    assert_eq!(error.details[0].value_base64, "AQID");
    assert_eq!(error.details[0].type_url(), "type.googleapis.com/acme.v1.Info");
    assert_eq!(error.details[0].value().unwrap(), vec![1, 2, 3]);
    assert_eq!(error.details[1].proto_type, "");
    assert_eq!(error.details[1].value().unwrap(), Vec::<u8>::new());
    assert_eq!(error.metadata().get_ascii("x-id").as_deref(), Some("7"));
    assert_eq!(error.to_string(), "not_found: no such thing");
}

#[test]
fn error_body_without_a_usable_code_takes_the_code_of_the_status() {
    for body in [
        &br#"{"message":"m"}"#[..],
        br#"{"code":"no_such_code","message":"m"}"#,
        br#"{"code":17,"message":"m"}"#,
        br#"{"code":null,"message":"m"}"#,
        br#"{"code":"NOT_FOUND","message":"m"}"#,
    ] {
        let error =
            ConnectError::from_response(response(503, &[("content-type", "application/json")], body));
        assert_eq!(error.code(), ConnectCode::Unavailable);
        assert_eq!(error.message, "m");
    }
    let error = ConnectError::from_response(response(401, &[("content-type", "application/json")], b"{}"));
    assert_eq!(error.code(), ConnectCode::Unauthenticated);
    assert_eq!(error.message, "");
    assert_eq!(error.to_string(), "unauthenticated");
}

#[test]
fn a_body_that_is_no_error_body_gives_request_invalid() {
    for body in [
        &b""[..],
        b"not json",
        b"[]",
        b"\"text\"",
        b"null",
        br#"{"message":5}"#,
        br#"{"message":null}"#,
        br#"{"details":{}}"#,
        br#"{"details":[{"type":"t"}]}"#,
        br#"{"details":[{"type":"t","value":1}]}"#,
        br#"{"details":["x"]}"#,
        br#"{"code":"not_found""#,
    ] {
        let error =
            ConnectError::from_response(response(403, &[("content-type", "application/json")], body));
        assert_eq!(error.code(), ConnectCode::PermissionDenied, "{:?}", body);
        assert_eq!(error.message, "request invalid");
        assert!(error.details.is_empty());
    }
}

#[test]
fn only_a_json_typed_body_is_read() {
    let body = br#"{"code":"aborted","message":"m"}"#;
    for content_type in ["application/proto", "application/json; charset=utf-8", "Application/JSON"] {
        let error =
            ConnectError::from_response(response(400, &[("content-type", content_type)], body));
        assert_eq!(error.code(), ConnectCode::Internal);
        assert_eq!(error.message, "request invalid");
    }
    let error = ConnectError::from_response(response(400, &[], body));
    assert_eq!(error.message, "request invalid");
    let error = ConnectError::from_response(response(
        400,
        &[("content-type", "application/json"), ("content-type", "text/plain")],
        body,
    ));
    assert_eq!(error.code(), ConnectCode::Aborted);
}

#[test]
fn from_json_takes_the_parsed_body() {
    let json = JsonValue::Object(vec![
        ("code".to_string(), JsonValue::String("data_loss".to_string())),
        ("message".to_string(), JsonValue::String("gone".to_string())),
    ]);
    let error = ConnectError::from_json(500, HeaderMap::new(), Some(&json));
    assert_eq!(error.code(), ConnectCode::DataLoss);
    assert_eq!(error.message, "gone");
    let error = ConnectError::from_json(501, HeaderMap::new(), None);
    assert_eq!(error.code(), ConnectCode::Unimplemented);
    assert_eq!(error.message, "request invalid");
    let error = ConnectError::from_json(501, HeaderMap::new(), Some(&JsonValue::Array(vec![])));
    assert_eq!(error.message, "request invalid");
}

#[test]
fn result_passes_a_good_response() {
    let resp = UnaryResponse::new(response(200, &[("content-type", "application/proto")], b"\x08\x01"));
    let resp = resp.result(&opts(Some("proto"), Some(&["gzip"]))).unwrap();
    assert_eq!(resp.body(), b"\x08\x01");
    assert_eq!(resp.status(), 200);
    let resp = UnaryResponse::new(response(299, &[("content-type", "application/json")], b"[1,2]"));
    assert!(resp.result(&opts(Some("json"), None)).is_ok());
}

#[test]
fn result_turns_a_failed_status_into_an_error() {
    let resp = UnaryResponse::new(response(
        429,
        &[("content-type", "application/json"), ("retry-after", "3")],
        br#"{"code":"resource_exhausted","message":"slow down"}"#,
    ));
    let error = connect_error(resp.result(&ValidateOpts::default()));
    assert_eq!(error.code(), ConnectCode::ResourceExhausted);
    assert_eq!(error.message, "slow down");
    assert_eq!(error.metadata().get_ascii("retry-after").as_deref(), Some("3"));

    for status in [199u16, 300, 404, 500] {
        let resp = UnaryResponse::new(response(status, &[("content-type", "application/proto")], b""));
        let error = connect_error(resp.result(&ValidateOpts::default()));
        assert_eq!(error.code(), ConnectCode::from(status));
        assert_eq!(error.message, "request invalid");
    }
}

#[test]
fn result_finds_an_error_body_under_a_success_status() {
    let resp = UnaryResponse::new(response(
        200,
        &[("content-type", "application/json")],
        br#"{"code":"invalid_argument","message":"bad field"}"#,
    ));
    let error = connect_error(resp.result(&opts(Some("json"), None)));
    assert_eq!(error.code(), ConnectCode::InvalidArgument);
    assert_eq!(error.message, "bad field");

    let resp = UnaryResponse::new(response(
        200,
        &[("content-type", "application/json")],
        br#"{"message":"no code"}"#,
    ));
    let error = connect_error(resp.result(&opts(None, None)));
    assert_eq!(error.code(), ConnectCode::Unknown);
    assert_eq!(error.message, "no code");
}

#[test]
fn result_turns_a_failed_validation_into_an_internal_error() {
    let resp = UnaryResponse::new(response(200, &[("content-type", "application/json")], b"[]"));
    let error = connect_error(resp.result(&opts(Some("proto"), None)));
    assert_eq!(error.code(), ConnectCode::Internal);
    assert_eq!(error.message, "unexpected message codec \"json\"");
    assert!(error.metadata().is_empty());

    let resp = UnaryResponse::new(response(
        200,
        &[("content-type", "application/proto"), ("content-encoding", "gzip")],
        b"",
    ));
    let error = connect_error(resp.result(&opts(Some("proto"), Some(&["br"]))));
    assert_eq!(error.code(), ConnectCode::Internal);
    assert_eq!(error.message, "unacceptable encoding \"gzip\"");
    assert_eq!(error.to_string(), "internal: unacceptable encoding \"gzip\"");

    let resp = UnaryResponse::new(response(200, &[], b""));
    let error = connect_error(resp.result(&opts(None, None)));
    assert_eq!(error.code(), ConnectCode::Unknown);
    assert_eq!(error.message, "");
}

#[test]
fn errors_become_connect_errors() {
    let e = ConnectError::from_error(Error::ConnectError(ConnectError::new(ConnectCode::Aborted, "x")));
    assert_eq!((e.code(), e.message.as_str()), (ConnectCode::Aborted, "x"));
    let e = ConnectError::from_error(Error::InvalidResponse("why".to_string()));
    assert_eq!((e.code(), e.message.as_str()), (ConnectCode::Internal, ""));
    let e = ConnectError::from_error(Error::UnacceptableEncoding("a\"b".to_string()));
    assert_eq!((e.code(), e.message.as_str()), (ConnectCode::Internal, "unacceptable encoding \"a\\\"b\""));
    let e = ConnectError::from_error(Error::UnexpectedMessageCodec("json".to_string()));
    assert_eq!((e.code(), e.message.as_str()), (ConnectCode::Internal, "unexpected message codec \"json\""));
    for err in [
        Error::InvalidRequest("r".to_string()),
        Error::BodyError("b".to_string()),
        Error::InvalidMetadata("m"),
    ] {
        let e = ConnectError::from_error(err);
        assert_eq!((e.code(), e.message.as_str()), (ConnectCode::Unknown, ""));
        assert!(e.details.is_empty());
    }
}

#[test]
fn new_error_has_code_and_message() {
    let e = ConnectError::new(ConnectCode::DeadlineExceeded, "request timed out");
    assert_eq!(e.code(), ConnectCode::DeadlineExceeded);
    assert_eq!(e.message, "request timed out");
    assert!(e.details.is_empty());
    assert!(e.metadata().is_empty());
    assert_eq!(e.to_string(), "deadline_exceeded: request timed out");
    assert_eq!(ConnectError::new(ConnectCode::Success, "").to_string(), "ok");
}

#[test]
fn detail_value_must_be_base64() {
    let detail = ConnectErrorDetail { proto_type: "t".to_string(), value_base64: "AQ==".to_string() };
    assert!(matches!(detail.value(), Err(Error::Base64DecodeError(_))));
    let detail = ConnectErrorDetail { proto_type: "a.B".to_string(), value_base64: "AQ".to_string() };
    assert_eq!(detail.value().unwrap(), vec![1]);
    assert_eq!(detail.type_url(), "type.googleapis.com/a.B");
}

#[test]
fn response_builder_makes_unary_headers() {
    let resp = ResponseBuilder::default()
        .status(201)
        .message_codec("PROTO")
        .unwrap()
        .content_encoding("gzip")
        .unwrap()
        .ascii_metadata("x-a", "1")
        .unwrap()
        .binary_metadata("x-b-bin", &[255])
        .unwrap()
        .unary(b"body".to_vec())
        .unwrap();
    assert_eq!(resp.status(), 201);
    assert_eq!(resp.message_codec().unwrap(), "proto");
    assert_eq!(resp.content_encoding().as_deref(), Some("gzip"));
    assert_eq!(resp.metadata().get_ascii("x-a").as_deref(), Some("1"));
    assert_eq!(resp.metadata().get_binary("x-b-bin"), Some(vec![255]));
    assert_eq!(resp.body(), b"body");
    let http = resp.into_inner();
    assert_eq!(http.headers.get("content-type").unwrap(), "application/proto");
    assert_eq!(http.headers.get("content-encoding").unwrap(), "gzip");
    assert_eq!(http.headers.get("x-b-bin").unwrap(), "/w");
    assert_eq!(http.headers.len(), 4);
}

#[test]
fn response_builder_makes_streaming_headers() {
    let resp = ResponseBuilder::default()
        .message_codec("json")
        .unwrap()
        .content_encoding("br")
        .unwrap()
        .streaming(())
        .unwrap();
    assert_eq!(resp.status(), 200);
    assert_eq!(resp.message_codec().unwrap(), "json");
    assert_eq!(resp.content_encoding().as_deref(), Some("br"));
    let http = resp.into_inner();
    assert_eq!(http.headers.get("content-type").unwrap(), "application/connect+json");
    assert_eq!(http.headers.get("connect-content-encoding").unwrap(), "br");
    assert!(!http.headers.contains_key("content-encoding"));

    let bare = ResponseBuilder::default().unary(()).unwrap();
    assert!(bare.into_inner().headers.is_empty());
}

#[test]
fn response_builder_checks_its_parts() {
    assert!(matches!(ResponseBuilder::default().message_codec("a/b"), Err(Error::InvalidRequest(_))));
    assert!(matches!(ResponseBuilder::default().content_encoding(""), Err(Error::InvalidRequest(_))));
    assert!(matches!(
        ResponseBuilder::default().ascii_metadata("k-bin", "v"),
        Err(Error::InvalidMetadata(_))
    ));
    assert!(matches!(
        ResponseBuilder::default().binary_metadata("k", b"v"),
        Err(Error::InvalidMetadata(_))
    ));
}

#[test]
fn error_fields_are_read_through_accessors() {
    let error = ConnectError::from_response(response(
        500,
        &[("content-type", "application/json")],
        br#"{"message":"m","details":[{"type":"t","value":"AQ"}]}"#,
    ));
    assert_eq!(error.message(), "m");
    assert_eq!(error.details().len(), 1);
    assert_eq!(error.details()[0].proto_type, "t");
}

#[test]
fn a_builder_without_headers_of_its_own_always_builds() {
    let resp = ResponseBuilder::default().status(204).unary(()).unwrap();
    assert_eq!(resp.status(), 204);
    let resp = ResponseBuilder::default().streaming(()).unwrap();
    assert!(resp.metadata().is_empty());
}

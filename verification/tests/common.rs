use connect_rpc::common::{
    base64_decode, base64_encode, header_text, is_valid_http_token, streaming_message_codec,
    unary_message_codec,
};
use connect_rpc::Error;
use http::{HeaderMap, HeaderValue};

fn headers_with_content_type(value: &[u8]) -> HeaderMap {
    let mut headers = HeaderMap::new();
    headers.insert("content-type", HeaderValue::from_bytes(value).unwrap());
    headers
}

fn invalid_request_message<T: std::fmt::Debug>(r: Result<T, Error>) -> String {
    match r {
        Err(Error::InvalidRequest(msg)) => msg,
        other => panic!("expected an invalid request, got {other:?}"),
    }
}

#[test]
fn http_tokens() {
    assert!(is_valid_http_token("proto"));
    assert!(is_valid_http_token("JSON"));
    assert!(is_valid_http_token("!#$%&'*+-.^_`|~09azAZ"));
    assert!(!is_valid_http_token(""));
    assert!(!is_valid_http_token("a b"));
    assert!(!is_valid_http_token("a/b"));
    assert!(!is_valid_http_token("a\"b"));
    assert!(!is_valid_http_token("a,b"));
    assert!(!is_valid_http_token("é"));
    assert!(!is_valid_http_token("a\u{7f}"));
}

#[test]
fn base64_is_standard_without_padding() {
    assert_eq!(base64_encode(b""), "");
    assert_eq!(base64_encode(b"f"), "Zg");
    assert_eq!(base64_encode(b"fo"), "Zm8");
    assert_eq!(base64_encode(b"foo"), "Zm9v");
    assert_eq!(base64_encode(&[0xfb, 0xff]), "+/8");
    assert_eq!(base64_decode(b"Zm9v").unwrap(), b"foo");
    assert_eq!(base64_decode(b"+/8").unwrap(), vec![0xfb, 0xff]);
    assert!(matches!(base64_decode(b"Zm8="), Err(Error::Base64DecodeError(_))));
    assert!(matches!(base64_decode(b"-_8"), Err(Error::Base64DecodeError(_))));
    assert!(matches!(base64_decode(b"Z"), Err(Error::Base64DecodeError(_))));
}

#[test]
fn base64_round_trips() {
    for len in 0..40usize {
        let bytes: Vec<u8> = (0..len).map(|i| (i * 37 + len * 11) as u8).collect();
        let text = base64_encode(&bytes);
        assert_eq!(base64_decode(text.as_bytes()).unwrap(), bytes);
    }
}

#[test]
fn header_text_reads_visible_ascii() {
    assert_eq!(header_text(b"hello world"), Some("hello world".to_string()));
    assert_eq!(header_text(b"a\tb"), Some("a\tb".to_string()));
    assert_eq!(header_text(b""), Some(String::new()));
    assert_eq!(header_text(&[0x80]), None);
    assert_eq!(header_text(&[0x7f]), None);
    assert_eq!(header_text(&[b'a', 0x1f]), None);
}

#[test]
fn unary_codec_is_read_from_content_type() {
    let headers = headers_with_content_type(b"application/proto");
    assert_eq!(unary_message_codec(&headers).unwrap(), "proto");
    let headers = headers_with_content_type(b"application/");
    assert_eq!(unary_message_codec(&headers).unwrap(), "");
    assert_eq!(invalid_request_message(unary_message_codec(&HeaderMap::new())), "missing content-type");
    assert_eq!(
        invalid_request_message(unary_message_codec(&headers_with_content_type(&[0xff]))),
        "invalid content-type"
    );
    assert_eq!(
        invalid_request_message(unary_message_codec(&headers_with_content_type(b"text/plain"))),
        "content-type must start with 'application/'"
    );
    assert_eq!(
        invalid_request_message(unary_message_codec(&headers_with_content_type(
            b"application/connect+proto"
        ))),
        "unary request with streaming content-type"
    );
}

#[test]
fn streaming_codec_is_read_from_content_type() {
    let headers = headers_with_content_type(b"application/connect+json");
    assert_eq!(streaming_message_codec(&headers).unwrap(), "json");
    assert_eq!(
        invalid_request_message(streaming_message_codec(&headers_with_content_type(
            b"application/json"
        ))),
        "streaming content-type must start with 'application/connect+'"
    );
    assert_eq!(
        invalid_request_message(streaming_message_codec(&HeaderMap::new())),
        "missing content-type"
    );
}

#[test]
fn first_content_type_counts() {
    let mut headers = headers_with_content_type(b"application/proto");
    headers.append("content-type", HeaderValue::from_static("application/json"));
    assert_eq!(unary_message_codec(&headers).unwrap(), "proto");
}

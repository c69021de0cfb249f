use connect_rpc::metadata::Metadata;
use connect_rpc::request::builder::RequestBuilder;
use connect_rpc::request::{
    ConnectRequest, ConnectRequestType, HttpRequest, Method, StreamingRequest, UnaryGetRequest,
    UnaryRequest,
};
use connect_rpc::uri::Uri;
use connect_rpc::Error;
use http::{HeaderMap, HeaderValue};

fn values(headers: &HeaderMap, name: &str) -> Vec<String> {
    headers.get_all(name).iter().map(|v| v.to_str().unwrap().to_string()).collect()
}

fn plain_uri(path: &str, query: Option<&str>) -> Uri {
    Uri { scheme: None, authority: None, path: path.to_string(), query: query.map(String::from) }
}

fn request_with(method: Method, uri: Uri, headers: &[(&str, &str)]) -> HttpRequest<Vec<u8>> {
    let mut map = HeaderMap::new();
    for (k, v) in headers {
        map.append(http::header::HeaderName::from_bytes(k.as_bytes()).unwrap(), HeaderValue::from_str(v).unwrap());
    }
    HttpRequest { method, uri, headers: map, body: b"body".to_vec() }
}

fn invalid_request_message<T: std::fmt::Debug>(r: Result<T, Error>) -> String {
    match r {
        Err(Error::InvalidRequest(msg)) => msg,
        other => panic!("expected an invalid request, got {other:?}"),
    }
}

#[test]
fn unary_request_has_version_and_content_type_and_no_timeout() {
    let req = RequestBuilder::new()
        .path("/pkg.Svc/Method")
        .unwrap()
        .message_codec("proto")
        .unwrap()
        .unary(b"payload".to_vec())
        .unwrap();
    assert_eq!(req.path(), "/pkg.Svc/Method");
    assert_eq!(req.connect_protocol_version().as_deref(), Some("1"));
    assert_eq!(req.message_codec().unwrap(), "proto");
    assert_eq!(req.timeout(), None);
    assert_eq!(req.body(), b"payload");
    assert!(req.validate().is_ok());
    let http = req.into_inner();
    assert_eq!(http.method, Method::Post);
    assert_eq!(values(&http.headers, "connect-protocol-version"), ["1"]);
    assert_eq!(values(&http.headers, "content-type"), ["application/proto"]);
    assert!(!http.headers.contains_key("connect-timeout-ms"));
    assert_eq!(http.headers.len(), 2);
    assert_eq!(http.uri.path, "/pkg.Svc/Method");
    assert_eq!(http.uri.query, None);
    assert_eq!(http.uri.scheme, None);
    assert_eq!(http.uri.authority, None);
}

#[test]
fn unary_get_request_carries_the_message_in_the_query() {
    let req = RequestBuilder::new()
        .path("/pkg.Svc/Method")
        .unwrap()
        .message_codec("proto")
        .unwrap()
        .unary_get(b"\x00\x01")
        .unwrap();
    assert_eq!(req.message().unwrap(), b"\x00\x01");
    assert_eq!(req.message_codec().unwrap(), "proto");
    assert_eq!(req.connect_protocol_version().as_deref(), Some("1"));
    assert_eq!(req.content_encoding(), None);
    assert_eq!(req.path(), "/pkg.Svc/Method");
    assert!(req.validate().is_ok());
    let http = req.into_inner();
    assert_eq!(http.method, Method::Get);
    assert_eq!(
        http.uri.query.as_deref(),
        Some("message=AAE&base64=1&connect=v1&encoding=proto")
    );
    assert_eq!(values(&http.headers, "connect-protocol-version"), ["1"]);
    assert!(!http.headers.contains_key("content-type"));
}

#[test]
fn unary_get_request_names_compression_and_uses_the_url_safe_alphabet() {
    let req = RequestBuilder::new()
        .scheme("https")
        .unwrap()
        .authority("example.com:8443")
        .unwrap()
        .protobuf_rpc("pkg.Svc", "Method")
        .unwrap()
        .message_codec("JSON")
        .unwrap()
        .content_encoding("gzip")
        .unwrap()
        .timeout_ms(1500)
        .unwrap()
        .accept_encoding(vec!["gzip".to_string(), "br".to_string()])
        .unwrap()
        .unary_get(&[0xfb, 0xff, 0xfe])
        .unwrap();
    assert_eq!(req.message().unwrap(), vec![0xfb, 0xff, 0xfe]);
    assert_eq!(req.content_encoding().as_deref(), Some("gzip"));
    assert_eq!(req.message_codec().unwrap(), "json");
    assert_eq!(req.scheme(), Some("https"));
    assert_eq!(req.authority(), Some("example.com:8443"));
    assert_eq!(req.timeout(), Some(1500));
    assert_eq!(req.accept_encoding(), ["gzip", "br"]);
    let http = req.into_inner();
    assert_eq!(
        http.uri.query.as_deref(),
        Some("message=-__-&base64=1&connect=v1&encoding=json&compression=gzip")
    );
    assert_eq!(values(&http.headers, "accept-encoding"), ["gzip", "br"]);
    assert_eq!(values(&http.headers, "connect-timeout-ms"), ["1500"]);
}

#[test]
fn unary_get_needs_a_path_and_a_codec() {
    let r = RequestBuilder::new().message_codec("proto").unwrap().unary_get(b"m");
    assert_eq!(invalid_request_message(r), "path required");
    let r = RequestBuilder::new().path("/a/b").unwrap().unary_get(b"m");
    assert_eq!(invalid_request_message(r), "message codec required");
    let r = RequestBuilder::new().unary_get(b"m");
    assert_eq!(invalid_request_message(r), "path required");
}

#[test]
fn streaming_request_uses_the_connect_names() {
    let req = RequestBuilder::new()
        .scheme("http")
        .unwrap()
        .authority("localhost")
        .unwrap()
        .path("svc/stream")
        .unwrap()
        .message_codec("Proto")
        .unwrap()
        .content_encoding("zstd")
        .unwrap()
        .accept_encoding(vec!["zstd".to_string(), "identity".to_string(), "zstd".to_string()])
        .unwrap()
        .timeout_ms(9_999_999_999)
        .unwrap()
        .streaming(())
        .unwrap();
    assert_eq!(req.message_codec().unwrap(), "proto");
    assert_eq!(req.content_encoding().as_deref(), Some("zstd"));
    assert_eq!(req.accept_encoding(), ["zstd", "identity", "zstd"]);
    assert_eq!(req.timeout(), Some(9_999_999_999));
    assert_eq!(req.path(), "/svc/stream");
    assert!(req.validate().is_ok());
    let http = req.into_inner();
    assert_eq!(http.method, Method::Post);
    assert_eq!(values(&http.headers, "content-type"), ["application/connect+proto"]);
    assert_eq!(values(&http.headers, "connect-content-encoding"), ["zstd"]);
    assert_eq!(values(&http.headers, "connect-accept-encoding"), ["zstd", "identity", "zstd"]);
    assert_eq!(values(&http.headers, "connect-timeout-ms"), ["9999999999"]);
    assert!(!http.headers.contains_key("content-encoding"));
    assert!(!http.headers.contains_key("accept-encoding"));
}

#[test]
fn unary_request_uses_the_standard_names() {
    let req = RequestBuilder::new()
        .path("/a/b")
        .unwrap()
        .message_codec("json")
        .unwrap()
        .content_encoding("gzip")
        .unwrap()
        .accept_encoding(vec!["gzip".to_string(), "gzip".to_string()])
        .unwrap()
        .ascii_metadata("X-Trace", "abc")
        .unwrap()
        .binary_metadata("x-sig-bin", &[1, 2, 3])
        .unwrap()
        .unary(())
        .unwrap();
    assert_eq!(req.content_encoding().as_deref(), Some("gzip"));
    assert_eq!(req.accept_encoding(), ["gzip", "gzip"]);
    assert_eq!(req.metadata().get_ascii("x-trace").as_deref(), Some("abc"));
    assert_eq!(req.metadata().get_binary("x-sig-bin"), Some(vec![1, 2, 3]));
    let http = req.into_inner();
    assert_eq!(values(&http.headers, "content-type"), ["application/json"]);
    assert_eq!(values(&http.headers, "content-encoding"), ["gzip"]);
    assert_eq!(values(&http.headers, "accept-encoding"), ["gzip", "gzip"]);
    assert!(!http.headers.contains_key("connect-content-encoding"));
}

#[test]
fn metadata_cannot_override_the_protocol_headers() {
    let req = RequestBuilder::new()
        .path("/a/b")
        .unwrap()
        .ascii_metadata("connect-protocol-version", "7")
        .unwrap()
        .ascii_metadata("connect-timeout-ms", "1")
        .unwrap()
        .timeout_ms(20)
        .unwrap()
        .unary(())
        .unwrap();
    let http = req.into_inner();
    assert_eq!(values(&http.headers, "connect-protocol-version"), ["1"]);
    assert_eq!(values(&http.headers, "connect-timeout-ms"), ["20"]);
}

#[test]
fn timeout_takes_at_most_ten_digits() {
    assert!(RequestBuilder::new().timeout_ms(0).is_ok());
    assert!(RequestBuilder::new().timeout_ms(9_999_999_999).is_ok());
    let r = RequestBuilder::new().timeout_ms(10_000_000_000);
    assert_eq!(invalid_request_message(r), "timeout too large");
    let r = RequestBuilder::new().timeout_ms(u64::MAX);
    assert_eq!(invalid_request_message(r), "timeout too large");
    let req = RequestBuilder::new()
        .path("/a/b")
        .unwrap()
        .timeout_ms(5)
        .unwrap()
        .clear_timeout()
        .unary(())
        .unwrap();
    assert_eq!(req.timeout(), None);
}

#[test]
fn path_gets_a_slash_and_may_hold_no_query() {
    let req = RequestBuilder::new().path("a/b").unwrap().unary(()).unwrap();
    assert_eq!(req.path(), "/a/b");
    let req = RequestBuilder::new().path("/a/b").unwrap().unary(()).unwrap();
    assert_eq!(req.path(), "/a/b");
    let req = RequestBuilder::new().path("").unwrap().unary(()).unwrap();
    assert_eq!(req.path(), "/");
    let r = RequestBuilder::new().path("/a?b=c");
    assert_eq!(invalid_request_message(r), "path may not contain query params ('?')");
    let r = RequestBuilder::new().protobuf_rpc("a?", "b");
    assert_eq!(invalid_request_message(r), "path may not contain query params ('?')");
}

#[test]
fn protobuf_rpc_paths() {
    let req = RequestBuilder::new().protobuf_rpc("pkg.Svc", "Do").unwrap().unary(()).unwrap();
    assert_eq!(req.path(), "/pkg.Svc/Do");
    assert_eq!(req.protobuf_rpc_parts(), Some(("", "pkg.Svc", "Do")));
    let req = RequestBuilder::new()
        .protobuf_rpc_with_routing_prefix("/api/v1", "pkg.Svc", "Do")
        .unwrap()
        .unary(())
        .unwrap();
    assert_eq!(req.path(), "/api/v1/pkg.Svc/Do");
    assert_eq!(req.protobuf_rpc_parts(), Some(("/api/v1", "pkg.Svc", "Do")));
    let req = RequestBuilder::new()
        .protobuf_rpc_with_routing_prefix("api/", "pkg.Svc", "Do")
        .unwrap()
        .unary(())
        .unwrap();
    assert_eq!(req.path(), "/api/pkg.Svc/Do");
    let req = RequestBuilder::new()
        .protobuf_rpc_with_routing_prefix("", "pkg.Svc", "Do")
        .unwrap()
        .unary(())
        .unwrap();
    assert_eq!(req.path(), "/pkg.Svc/Do");
}

#[test]
fn rpc_parts_need_two_slashes() {
    let req = UnaryRequest::new(request_with(Method::Post, plain_uri("/only", None), &[]));
    assert_eq!(req.protobuf_rpc_parts(), None);
    let req = UnaryRequest::new(request_with(Method::Post, plain_uri("none", None), &[]));
    assert_eq!(req.protobuf_rpc_parts(), None);
    let req = UnaryRequest::new(request_with(Method::Post, plain_uri("/a/b/c/d", None), &[]));
    assert_eq!(req.protobuf_rpc_parts(), Some(("/a/b", "c", "d")));
}

#[test]
fn codec_must_be_a_token_and_is_lower_cased() {
    let r = RequestBuilder::new().message_codec("");
    assert_eq!(invalid_request_message(r), "invalid message codec");
    let r = RequestBuilder::new().message_codec("pro to");
    assert_eq!(invalid_request_message(r), "invalid message codec");
    let r = RequestBuilder::new().message_codec("prötö");
    assert_eq!(invalid_request_message(r), "invalid message codec");
    let r = RequestBuilder::new().content_encoding("gz ip");
    assert_eq!(invalid_request_message(r), "invalid content encoding");
    let req = RequestBuilder::new()
        .path("/a/b")
        .unwrap()
        .message_codec("PROTO+X_1")
        .unwrap()
        .content_encoding("GZip")
        .unwrap()
        .unary(())
        .unwrap();
    assert_eq!(req.message_codec().unwrap(), "proto+x_1");
    assert_eq!(req.content_encoding().as_deref(), Some("GZip"));
}

#[test]
fn accept_encodings_must_be_header_values() {
    let r = RequestBuilder::new().accept_encoding(vec!["gzip".to_string(), "br\n".to_string()]);
    assert!(matches!(r, Err(Error::InvalidHeaderValue(_))));
    let r = RequestBuilder::new().accept_encoding(vec!["\u{7f}".to_string()]);
    assert!(matches!(r, Err(Error::InvalidHeaderValue(_))));
    let req = RequestBuilder::new()
        .path("/a/b")
        .unwrap()
        .accept_encoding(vec!["one".to_string()])
        .unwrap()
        .accept_encoding(vec!["a b".to_string(), "caf\u{e9}".to_string()])
        .unwrap()
        .unary(())
        .unwrap();
    assert_eq!(req.accept_encoding(), ["a b"]);
    let http = req.into_inner();
    let raw: Vec<Vec<u8>> =
        http.headers.get_all("accept-encoding").iter().map(|v| v.as_bytes().to_vec()).collect();
    assert_eq!(raw, vec![b"a b".to_vec(), "caf\u{e9}".as_bytes().to_vec()]);
}

#[test]
fn scheme_and_authority_are_checked_when_set() {
    assert!(matches!(RequestBuilder::new().scheme("ht tp"), Err(Error::InvalidUri(_))));
    assert!(matches!(RequestBuilder::new().scheme("http://"), Err(Error::InvalidUri(_))));
    assert!(matches!(RequestBuilder::new().authority(""), Err(Error::InvalidUri(_))));
    assert!(matches!(RequestBuilder::new().authority("a b"), Err(Error::InvalidUri(_))));
    assert!(matches!(RequestBuilder::new().authority("host/path"), Err(Error::InvalidUri(_))));
    let req = RequestBuilder::new()
        .scheme("custom+scheme")
        .unwrap()
        .authority("user@Example.COM:80")
        .unwrap()
        .path("/x/y")
        .unwrap()
        .unary(())
        .unwrap();
    assert_eq!(req.scheme(), Some("custom+scheme"));
    assert_eq!(req.authority(), Some("user@Example.COM:80"));
}

#[test]
fn parts_of_a_uri_must_agree() {
    let r = RequestBuilder::new().scheme("http").unwrap().path("/a/b").unwrap().unary(());
    assert!(matches!(r, Err(Error::InvalidUriParts(_))));
    let r = RequestBuilder::new().scheme("http").unwrap().authority("h").unwrap().unary(());
    assert!(matches!(r, Err(Error::InvalidUriParts(_))));
    let r = RequestBuilder::new().authority("h").unwrap().path("/a/b").unwrap().streaming(());
    assert!(matches!(r, Err(Error::InvalidUriParts(_))));
    let r = RequestBuilder::new()
        .authority("h")
        .unwrap()
        .path("/a/b")
        .unwrap()
        .message_codec("proto")
        .unwrap()
        .unary_get(b"");
    assert!(matches!(r, Err(Error::InvalidUriParts(_))));
    let req = RequestBuilder::new().authority("host:1").unwrap().unary(()).unwrap();
    assert_eq!(req.authority(), Some("host:1"));
    assert_eq!(req.path(), "");
    let req = RequestBuilder::new().unary(()).unwrap();
    assert_eq!(req.path(), "");
    assert_eq!(req.scheme(), None);
}

#[test]
fn a_path_that_is_no_path_fails_at_build() {
    let r = RequestBuilder::new().path("/a b").unwrap().unary(());
    assert!(matches!(r, Err(Error::InvalidUri(_))));
    let r = RequestBuilder::new()
        .scheme("http")
        .unwrap()
        .path("/a\u{7f}")
        .unwrap()
        .streaming(());
    assert!(matches!(r, Err(Error::InvalidUri(_))));
}

#[test]
fn uri_sets_scheme_authority_and_path() {
    let req = RequestBuilder::new()
        .uri("https://example.com:443/pkg.Svc/Do?ignored=1")
        .unwrap()
        .message_codec("proto")
        .unwrap()
        .unary(())
        .unwrap();
    assert_eq!(req.scheme(), Some("https"));
    assert_eq!(req.authority(), Some("example.com:443"));
    assert_eq!(req.path(), "/pkg.Svc/Do");
    assert_eq!(req.into_inner().uri.query, None);

    let req = RequestBuilder::new()
        .scheme("http")
        .unwrap()
        .authority("old")
        .unwrap()
        .uri("/just/a/path")
        .unwrap()
        .unary(())
        .unwrap();
    assert_eq!(req.scheme(), None);
    assert_eq!(req.authority(), None);
    assert_eq!(req.path(), "/just/a/path");

    assert!(matches!(RequestBuilder::new().uri("http://exa mple.com/"), Err(Error::InvalidUri(_))));
    assert!(matches!(RequestBuilder::new().uri(""), Err(Error::InvalidUri(_))));
}

#[test]
fn metadata_errors_come_from_the_builder() {
    assert!(matches!(
        RequestBuilder::new().ascii_metadata("x-bin", "v"),
        Err(Error::InvalidMetadata(_))
    ));
    assert!(matches!(
        RequestBuilder::new().binary_metadata("x", b"v"),
        Err(Error::InvalidMetadata(_))
    ));
    assert!(matches!(
        RequestBuilder::new().ascii_metadata("x", "v\n"),
        Err(Error::InvalidMetadata(_))
    ));
    assert!(matches!(
        RequestBuilder::new().ascii_metadata("a b", "v"),
        Err(Error::InvalidHeaderName(_))
    ));
    let req = RequestBuilder::default()
        .ascii_metadata("k", "1")
        .unwrap()
        .ascii_metadata("k", "2")
        .unwrap()
        .unary(())
        .unwrap();
    assert_eq!(req.metadata().get_all_ascii("k"), ["1", "2"]);
}

#[test]
fn inbound_requests_are_told_apart() {
    let get = request_with(
        Method::Get,
        plain_uri("/a/b", Some("message=aGk&base64=1&encoding=proto&connect=v1")),
        &[("content-type", "application/connect+proto")],
    );
    match ConnectRequestType::from_http(get) {
        ConnectRequestType::UnaryGet(req) => {
            assert_eq!(req.message().unwrap(), b"hi");
            assert_eq!(req.path(), "/a/b");
        }
        _ => panic!("expected a unary GET request"),
    }
    let streaming = request_with(
        Method::Post,
        plain_uri("/a/b", None),
        &[("content-type", "application/connect+proto")],
    );
    match ConnectRequestType::from_http(streaming) {
        ConnectRequestType::Streaming(req) => {
            assert_eq!(req.message_codec().unwrap(), "proto");
            assert_eq!(req.body(), b"body");
        }
        _ => panic!("expected a streaming request"),
    }
    for headers in [
        vec![("content-type", "application/proto")],
        vec![("content-type", "application/connect")],
        vec![("content-type", "Application/Connect+proto")],
        vec![],
    ] {
        let unary = request_with(Method::Other("PUT".to_string()), plain_uri("/a/b", None), &headers);
        assert!(matches!(ConnectRequestType::from_http(unary), ConnectRequestType::Unary(_)));
    }
}

#[test]
fn protocol_version_must_be_one() {
    let ok = UnaryRequest::new(request_with(
        Method::Post,
        plain_uri("/a/b", None),
        &[("content-type", "application/proto"), ("connect-protocol-version", "1")],
    ));
    assert!(ok.validate().is_ok());
    let none = UnaryRequest::new(request_with(
        Method::Post,
        plain_uri("/a/b", None),
        &[("content-type", "application/proto")],
    ));
    assert!(none.validate().is_ok());
    assert_eq!(none.connect_protocol_version(), None);
    for version in ["2", "01", "1 ", ""] {
        let bad = StreamingRequest::new(request_with(
            Method::Post,
            plain_uri("/a/b", None),
            &[("content-type", "application/connect+proto"), ("connect-protocol-version", version)],
        ));
        assert_eq!(
            invalid_request_message(bad.validate()),
            format!("unknown connect-protocol-version {version:?}")
        );
    }
}

#[test]
fn validation_needs_a_codec() {
    let req = UnaryRequest::new(request_with(Method::Post, plain_uri("/a/b", None), &[]));
    assert_eq!(invalid_request_message(req.validate()), "missing content-type");
    let req = UnaryRequest::new(request_with(
        Method::Post,
        plain_uri("/a/b", None),
        &[("content-type", "application/connect+proto")],
    ));
    assert_eq!(
        invalid_request_message(req.validate()),
        "unary request with streaming content-type"
    );
    let req = StreamingRequest::new(request_with(
        Method::Post,
        plain_uri("/a/b", None),
        &[("content-type", "application/proto")],
    ));
    assert_eq!(
        invalid_request_message(req.validate()),
        "streaming content-type must start with 'application/connect+'"
    );
}

fn get_request(query: Option<&str>) -> UnaryGetRequest {
    let req = request_with(Method::Get, plain_uri("/a/b", query), &[("accept-encoding", "gzip")]);
    UnaryGetRequest::new(HttpRequest {
        method: req.method,
        uri: req.uri,
        headers: req.headers,
        body: (),
    })
}

#[test]
fn unary_get_reads_its_query() {
    let req = get_request(Some("connect=v1&encoding=json&message=%7B%22a%22%3A1%7D&compression=br"));
    assert_eq!(req.message().unwrap(), br#"{"a":1}"#);
    assert_eq!(req.message_codec().unwrap(), "json");
    assert_eq!(req.content_encoding().as_deref(), Some("br"));
    assert_eq!(req.connect_protocol_version().as_deref(), Some("1"));
    assert_eq!(req.accept_encoding(), ["gzip"]);
    assert!(req.validate().is_ok());

    let req = get_request(Some("message=a&message=b&encoding=x&encoding=proto"));
    assert_eq!(req.message().unwrap(), b"b");
    assert_eq!(req.message_codec().unwrap(), "proto");
    assert_eq!(req.connect_protocol_version(), None);
    assert!(req.validate().is_ok());

    let req = get_request(Some("message=a+b%20c&base64=0&encoding=proto"));
    assert_eq!(req.message().unwrap(), b"a b c");

    let req = get_request(Some("message=%2541%25&encoding=proto"));
    assert_eq!(req.message().unwrap(), b"A%");
    let req = get_request(Some("message=%25ff&encoding=proto"));
    assert_eq!(invalid_request_message(req.message()), "message not valid utf8");
}

#[test]
fn unary_get_reports_what_is_missing_or_broken() {
    let req = get_request(None);
    assert_eq!(invalid_request_message(req.message()), "missing message");
    assert_eq!(invalid_request_message(req.message_codec()), "missing 'encoding' param");
    assert_eq!(invalid_request_message(req.validate()), "missing 'encoding' param");

    let req = get_request(Some("encoding=proto"));
    assert_eq!(invalid_request_message(req.validate()), "missing 'message' param");

    let req = get_request(Some("encoding=proto&message=x&connect=v2"));
    assert_eq!(
        invalid_request_message(req.validate()),
        "unknown connect-protocol-version \"2\""
    );
    let req = get_request(Some("encoding=proto&message=x&connect=1"));
    assert_eq!(req.connect_protocol_version(), None);
    assert!(req.validate().is_ok());

    let req = get_request(Some("message=a%2Bb&base64=1"));
    assert!(matches!(req.message(), Err(Error::Base64DecodeError(_))));
    let req = get_request(Some("message=YQ%3D%3D&base64=1"));
    assert!(matches!(req.message(), Err(Error::Base64DecodeError(_))));
    let req = get_request(Some("message=YQ&base64=1"));
    assert_eq!(req.message().unwrap(), b"a");
}

#[test]
fn timeout_is_read_from_its_header() {
    for (text, expected) in [
        ("250", Some(250u64)),
        ("+7", Some(7)),
        ("0", Some(0)),
        ("18446744073709551615", Some(u64::MAX)),
        ("18446744073709551616", None),
        ("1.5", None),
        ("", None),
        ("ten", None),
    ] {
        let req = UnaryRequest::new(request_with(
            Method::Post,
            plain_uri("/a/b", None),
            &[("connect-timeout-ms", text)],
        ));
        assert_eq!(req.timeout(), expected, "{text:?}");
    }
}

#[test]
fn a_request_cannot_be_built_on_full_metadata() {
    let mut builder = RequestBuilder::new().path("/a/b").unwrap();
    let mut count = 0usize;
    let builder = loop {
        let before = count;
        builder = match builder.ascii_metadata(&format!("k{count}"), "v") {
            Ok(next) => {
                count += 1;
                next
            }
            Err(Error::InvalidMetadata(msg)) => {
                assert_eq!(msg, "the metadata holds as many entries as it can");
                let mut again = RequestBuilder::new().path("/a/b").unwrap();
                for i in 0..before {
                    again = again.ascii_metadata(&format!("k{i}"), "v").unwrap();
                }
                break again;
            }
            Err(other) => panic!("unexpected error {other:?}"),
        };
        assert!(count <= 1 << 15);
    };
    match builder.unary(()) {
        Err(Error::InvalidMetadata(msg)) => {
            assert_eq!(msg, "the metadata holds as many entries as it can")
        }
        other => panic!("expected a refusal, got {:?}", other.map(|_| ())),
    }
}

#[test]
fn a_fragment_is_cut_from_the_path() {
    let req = RequestBuilder::new().path("/a/b#frag").unwrap().unary(()).unwrap();
    assert_eq!(req.path(), "/a/b");
    assert_eq!(req.into_inner().uri.query, None);

    let req = RequestBuilder::new().path("#frag").unwrap().unary(()).unwrap();
    assert_eq!(req.path(), "/");

    let req = RequestBuilder::new()
        .scheme("http")
        .unwrap()
        .authority("h")
        .unwrap()
        .path("/#")
        .unwrap()
        .streaming(())
        .unwrap();
    assert_eq!(req.path(), "/");

    let req = RequestBuilder::new()
        .path("/a#b")
        .unwrap()
        .message_codec("proto")
        .unwrap()
        .unary_get(b"m")
        .unwrap();
    assert_eq!(req.path(), "/a");
    assert_eq!(invalid_request_message(req.message()), "missing message");
    assert_eq!(req.into_inner().uri.query, None);
}

#[test]
fn the_path_given_is_the_path_of_the_request() {
    for path in ["/", "/a", "/pkg.Svc/Method", "/a/b/c/", "/%20/x", "/{id}", "/caf\u{e9}"] {
        let req = RequestBuilder::new().path(path).unwrap().unary(()).unwrap();
        assert_eq!(req.path(), path);
        let req = RequestBuilder::new()
            .scheme("https")
            .unwrap()
            .authority("example.com")
            .unwrap()
            .path(path)
            .unwrap()
            .message_codec("proto")
            .unwrap()
            .unary_get(b"\xff")
            .unwrap();
        assert_eq!(req.path(), path);
        assert_eq!(
            req.into_inner().uri.query.as_deref(),
            Some("message=_w&base64=1&connect=v1&encoding=proto")
        );
    }
}

#[test]
fn a_scheme_is_at_most_64_scheme_characters() {
    let longest = "a".repeat(64);
    for scheme in ["http", "https", "", "HTTP", "a+b-c.d~e", "9", longest.as_str()] {
        let req = RequestBuilder::new()
            .scheme(scheme)
            .unwrap()
            .authority("h")
            .unwrap()
            .path("/a/b")
            .unwrap()
            .unary(())
            .unwrap();
        assert_eq!(req.scheme(), Some(scheme));
    }
    let too_long = "a".repeat(65);
    for scheme in ["a_b", "a:b", "a/b", "a b", "http:", "caf\u{e9}", "a%20", too_long.as_str()] {
        assert!(
            matches!(RequestBuilder::new().scheme(scheme), Err(Error::InvalidUri(_))),
            "{scheme:?}"
        );
    }
}

#[test]
fn a_path_holds_what_may_stand_in_a_path() {
    for b in 0u8..=0x7f {
        let c = b as char;
        if c == '?' {
            continue;
        }
        let allowed = c == '#'
            || c == '!'
            || c == '"'
            || ('$'..=';').contains(&c)
            || c == '='
            || ('@'..='_').contains(&c)
            || ('a'..='~').contains(&c);
        let built = RequestBuilder::new().path(&format!("/x{c}y")).unwrap().unary(());
        assert_eq!(built.is_ok(), allowed, "{b:#x}");
    }
    for path in ["/\u{80}", "/\u{7ff}/\u{ffff}", "/\u{10ffff}"] {
        let req = RequestBuilder::new().path(path).unwrap().unary(()).unwrap();
        assert_eq!(req.path(), path);
    }
    let longest = format!("/{}", "a".repeat(65533));
    assert!(RequestBuilder::new().path(&longest).unwrap().unary(()).is_ok());
    let too_long = format!("/{}", "a".repeat(65534));
    assert!(matches!(
        RequestBuilder::new().path(&too_long).unwrap().unary(()),
        Err(Error::InvalidUri(_))
    ));
    let wide = format!("/{}", "\u{e9}".repeat(32767));
    assert!(matches!(
        RequestBuilder::new().path(&wide).unwrap().unary(()),
        Err(Error::InvalidUri(_))
    ));
    let wide_fits = format!("/{}a", "\u{e9}".repeat(32766));
    assert!(RequestBuilder::new().path(&wide_fits).unwrap().unary(()).is_ok());
}

#[test]
fn a_query_holds_what_may_stand_in_a_query() {
    for b in 0u8..=0x7f {
        let c = b as char;
        let allowed = c == '#'
            || c == '!'
            || ('$'..=';').contains(&c)
            || c == '='
            || ('?'..='~').contains(&c);
        let built = RequestBuilder::new().uri(&format!("/p?x{c}y"));
        assert_eq!(built.is_ok(), allowed, "{b:#x}");
    }
}

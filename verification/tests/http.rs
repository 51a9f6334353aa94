use omnia::http::{
    decode_client_cert, decoded_cert, dedupe_host, is_forbidden, prepare_request, send_error,
    strip_forbidden, Base64Failure, ConnectOptions, ErrorCode, Header,
};

fn header(name: &str, value: &str) -> Header {
    Header { name: name.to_string(), value: value.as_bytes().to_vec() }
}

fn values<'a>(headers: &'a [Header], name: &str) -> Vec<&'a [u8]> {
    headers
        .iter()
        .filter(|h| h.name.eq_ignore_ascii_case(name))
        .map(|h| h.value.as_slice())
        .collect()
}

#[test]
fn multiple_host_headers() {
    let headers = vec![header("host", "localhost-1"), header("host", "localhost-2")];
    let (prepared, cert) = prepare_request(headers).expect("request should be prepared");
    assert!(cert.is_none());
    let hosts = values(&prepared, "host");
    assert_eq!(hosts.len(), 1);
    assert_eq!(hosts[0], b"localhost-2");
}

#[test]
fn single_host_header_is_kept() {
    let headers = vec![header("Host", "example.com"), header("accept", "*/*")];
    let out = dedupe_host(headers);
    assert_eq!(out.len(), 2);
    assert_eq!(out[0].name, "Host");
    assert_eq!(out[0].value, b"example.com");
    assert_eq!(out[1].name, "accept");
}

#[test]
fn three_host_headers_drop_only_the_first() {
    let headers = vec![
        header("host", "a"),
        header("x-custom-header", "custom-value"),
        header("HOST", "b"),
        header("host", "c"),
    ];
    let out = dedupe_host(headers);
    assert_eq!(out.len(), 3);
    assert_eq!(out[0].name, "x-custom-header");
    assert_eq!(values(&out, "host"), vec![&b"b"[..], &b"c"[..]]);
}

#[test]
fn custom_headers() {
    let headers = vec![
        header("X-Custom-Header", "custom-value"),
        header("authorization", "Bearer token123"),
    ];
    let (prepared, cert) = prepare_request(headers).expect("request should be prepared");
    assert!(cert.is_none());
    assert_eq!(prepared.len(), 2);
    assert_eq!(prepared[0].name, "X-Custom-Header");
    assert_eq!(prepared[0].value, b"custom-value");
    assert_eq!(prepared[1].value, b"Bearer token123");
}

#[test]
fn permitted_headers() {
    let headers = vec![
        header("connection", "keep-alive"),
        header("transfer-encoding", "chunked"),
        header("upgrade", "websocket"),
        header("content-type", "application/json"),
        header("X-Safe-Header", "safe-value"),
    ];
    let out = strip_forbidden(&headers);
    assert_eq!(out.len(), 2);
    assert_eq!(values(&out, "content-type"), vec![&b"application/json"[..]]);
    assert_eq!(values(&out, "x-safe-header"), vec![&b"safe-value"[..]]);
    assert!(values(&out, "connection").is_empty());
    assert!(values(&out, "transfer-encoding").is_empty());
    assert!(values(&out, "upgrade").is_empty());
}

#[test]
fn every_forbidden_header_is_recognised() {
    for name in [
        "connection",
        "host",
        "proxy-authenticate",
        "proxy-authorization",
        "transfer-encoding",
        "upgrade",
        "keep-alive",
        "proxy-connection",
        "http2-settings",
        "Keep-Alive",
    ] {
        assert!(is_forbidden(&name.to_string()), "{name} should be forbidden");
    }
    assert!(!is_forbidden(&"content-type".to_string()));
    assert!(!is_forbidden(&"hosts".to_string()));
}

#[test]
fn client_cert_base64() {
    let headers = vec![header("Client-Cert", "not-valid-base64!!!")];
    let result = prepare_request(headers);
    assert!(matches!(result, Err(ErrorCode::InternalError(Some(_)))));
}

#[test]
fn client_cert_decodes_base64() {
    // base64 of "invalid pem content"
    let headers = vec![
        header("client-cert", "aW52YWxpZCBwZW0gY29udGVudA=="),
        header("accept", "*/*"),
    ];
    let (prepared, cert) = prepare_request(headers).expect("valid base64 should decode");
    assert_eq!(cert.as_deref(), Some(&b"invalid pem content"[..]));
    assert_eq!(prepared.len(), 1);
    assert_eq!(prepared[0].name, "accept");
}

#[test]
fn client_cert_must_be_visible_ascii() {
    let raw = b"aW52\nYWxpZA==".to_vec();
    let result = decode_client_cert(&raw);
    assert_eq!(
        result,
        Err(ErrorCode::InternalError(Some("failed to convert header to a str".to_string())))
    );
}

#[test]
fn decode_client_cert_returns_bytes() {
    assert_eq!(decode_client_cert(b"aGVsbG8=").unwrap(), b"hello".to_vec());
    assert_ne!(decode_client_cert(b"aGVsbG8=").unwrap(), b"aGVsbG8=".to_vec());
}

#[test]
fn base64_failures_are_internal_errors() {
    assert_eq!(decoded_cert(Ok(vec![1, 2])), Ok(vec![1, 2]));
    assert_eq!(
        decoded_cert(Err(Base64Failure::InvalidEncoding)),
        Err(ErrorCode::InternalError(Some("invalid Base64 encoding".to_string())))
    );
    assert_eq!(
        decoded_cert(Err(Base64Failure::InvalidLength)),
        Err(ErrorCode::InternalError(Some("invalid Base64 length".to_string())))
    );
}

#[test]
fn send_errors_are_classified() {
    assert_eq!(send_error(true, true, true, "x".to_string()), ErrorCode::ConnectionTimeout);
    assert_eq!(send_error(false, true, true, "x".to_string()), ErrorCode::ConnectionRefused);
    assert_eq!(send_error(false, false, true, "x".to_string()), ErrorCode::HttpRequestUriInvalid);
    assert_eq!(
        send_error(false, false, false, "boom".to_string()),
        ErrorCode::InternalError(Some("boom".to_string()))
    );
}

#[test]
fn connect_options_default_address() {
    assert_eq!(ConnectOptions::new(None).addr, "http://localhost:8080");
    assert_eq!(ConnectOptions::new(Some("http://example:1".to_string())).addr, "http://example:1");
}

#[test]
fn serialized_keeps_text_headers() {
    let headers = vec![header("content-type", "application/json"), Header {
        name: "x-bin".to_string(),
        value: vec![0xff, b'a'],
    }];
    let s = omnia::http::Serialized::from_response(201, &headers, b"{\"ok\":true}".to_vec());
    assert_eq!(s.status, 201);
    assert_eq!(s.headers[0], ("content-type".to_string(), "application/json".to_string()));
    assert_eq!(s.headers[1], ("x-bin".to_string(), String::new()));
    assert_eq!(s.body, b"{\"ok\":true}".to_vec());
}

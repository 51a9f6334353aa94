use anyhow::Context;
use omnia::error::{join, Error, ErrorKind, HttpError};

fn chain_of(err: &anyhow::Error) -> Vec<String> {
    err.chain().map(|c| c.to_string()).collect()
}

#[test]
fn error_display() {
    let err = Error::bad_request("invalid input".to_string());
    assert_eq!(err.display(), "code: bad_request, description: invalid input");
}

#[test]
fn with_context() {
    // `Err(bad_request!(..)).context("doing something").context("more context")?`
    let inner = Error::bad_request("invalid input".to_string());
    let chain = vec!["more context".to_string(), "doing something".to_string(), inner.display()];
    let err = Error::from_chain(&chain, Some(&inner));
    assert_eq!(
        err.display(),
        Error::bad_request(
            "more context: doing something: code: bad_request, description: invalid input"
                .to_string()
        )
        .display()
    );
}

#[test]
fn r9k_context() {
    // `Err(server_error!("server error")).context("request context")` into `Error`
    let inner = Error::server_error("server error".to_string());
    let chain = vec!["request context".to_string(), inner.display()];
    let err = Error::from_chain(&chain, Some(&inner));
    assert_eq!(
        err.display(),
        "code: server_error, description: request context: code: server_error, description: server error"
    );
}

#[test]
fn anyhow_context() {
    let result = Err::<(), anyhow::Error>(anyhow::Error::msg("one-off error")).context("error context");
    let chain = chain_of(&result.unwrap_err());
    let err = Error::from_chain(&chain, None);
    assert_eq!(err.display(), "code: server_error, description: error context: one-off error");
}

#[test]
fn serde_context() {
    let result: Result<serde_json::Value, anyhow::Error> =
        serde_json::from_str(r#"{"foo": "bar""#).context("error context");
    let chain = chain_of(&result.unwrap_err());
    let err = Error::from_chain(&chain, None);
    assert_eq!(
        err.display(),
        "code: server_error, description: error context: EOF while parsing an object at line 1 column 13"
    );
}

#[test]
fn status_codes_by_class() {
    assert_eq!(Error::bad_request("x".to_string()).status(), 400);
    assert_eq!(
        Error::NotFound { code: "not_found".to_string(), description: "x".to_string() }.status(),
        404
    );
    assert_eq!(Error::server_error("x".to_string()).status(), 500);
    assert_eq!(Error::bad_gateway("x".to_string()).status(), 502);
}

#[test]
fn code_and_description_getters() {
    let err = Error::bad_gateway("upstream down".to_string());
    assert_eq!(err.code(), "bad_gateway");
    assert_eq!(err.description(), "upstream down");
    assert_eq!(err.error_kind(), ErrorKind::BadGateway);
}

#[test]
fn from_chain_keeps_inner_class_and_code() {
    let inner = Error::NotFound { code: "missing".to_string(), description: "gone".to_string() };
    let err = Error::from_chain(&vec!["a".to_string(), "b".to_string()], Some(&inner));
    assert_eq!(err.error_kind(), ErrorKind::NotFound);
    assert_eq!(err.code(), "missing");
    assert_eq!(err.description(), "a: b");
}

#[test]
fn join_edge_cases() {
    assert_eq!(join(&vec![], ": "), "");
    assert_eq!(join(&vec!["only".to_string()], ": "), "only");
    assert_eq!(join(&vec!["a".to_string(), "".to_string(), "c".to_string()], "/"), "a//c");
}

#[test]
fn http_error_from_domain_error() {
    let e = HttpError::from_error(&Error::bad_request("nope".to_string()));
    assert_eq!(e.status, 400);
    assert_eq!(e.error, "code: bad_request, description: nope");
}

#[test]
fn http_error_from_report() {
    let inner = Error::bad_gateway("x".to_string());
    let e = HttpError::from_report("outer", "root", Some(&inner));
    assert_eq!(e.status, 502);
    assert_eq!(e.error, "outer, caused by: root");
    let e = HttpError::from_report("outer", "root", None);
    assert_eq!(e.status, 500);
}

#[test]
fn json_errors_are_bad_requests() {
    let parse = serde_json::from_str::<serde_json::Value>("{").unwrap_err();
    let err = Error::from_json_error(parse.to_string());
    assert_eq!(err.status(), 400);
    assert_eq!(err.code(), "serde_json");
    assert_eq!(err.description(), parse.to_string());
}

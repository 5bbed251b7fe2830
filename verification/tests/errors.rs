use venues::{ApiError, ErrorResponse, Errors, HttpFailure};

fn api_error(name: &str, message: &str) -> ApiError {
    ApiError { name: name.to_string(), message: message.to_string() }
}

#[test]
fn errors_display_text() {
    assert_eq!(Errors::InvalidApiKey().to_string(), "Invalid API key or signature");
    assert_eq!(Errors::HttpError("boom".to_string()).to_string(), "HTTP error: boom");
    assert_eq!(
        Errors::ApiError(api_error("invalid_query", "bad market")).to_string(),
        "API error: invalid_query: bad market"
    );
    assert_eq!(Errors::Error("oops".to_string()).to_string(), "Error: oops");
}

#[test]
fn api_error_display_text() {
    let resp = ErrorResponse { error: api_error("jwt_verification", "Failed to verify Jwt token.") };
    assert_eq!(resp.error.to_string(), "jwt_verification: Failed to verify Jwt token.");
}

fn http_message(f: HttpFailure) -> String {
    match Errors::from_http_failure(f) {
        Errors::HttpError(m) => m,
        other => panic!("unexpected {:?}", other),
    }
}

#[test]
fn http_failures_become_http_errors() {
    assert_eq!(http_message(HttpFailure::Network("refused".to_string())), "network: refused");
    assert_eq!(http_message(HttpFailure::Timeout), "timeout");
    assert_eq!(http_message(HttpFailure::InvalidUrl("x:y".to_string())), "invalid url: x:y");
    assert_eq!(http_message(HttpFailure::Decode("eof".to_string())), "decode: eof");
    assert_eq!(
        http_message(HttpFailure::Http { status: 404, body: "none".to_string() }),
        "status 404: none"
    );
    assert_eq!(http_message(HttpFailure::Http { status: 0, body: String::new() }), "status 0: ");
    assert_eq!(
        http_message(HttpFailure::Http { status: 65535, body: "x".to_string() }),
        "status 65535: x"
    );
    assert_eq!(http_message(HttpFailure::Unknown("?".to_string())), "unknown: ?");
}

#[test]
fn json_errors_become_general_errors() {
    let err = serde_json::from_str::<u32>("not json").unwrap_err();
    let text = format!("{}", err);
    match Errors::from_json_error(err) {
        Errors::Error(m) => assert_eq!(m, format!("JSON error: {}", text)),
        other => panic!("unexpected {:?}", other),
    }
    match Errors::from_json_error_text("expected value") {
        Errors::Error(m) => assert_eq!(m, "JSON error: expected value"),
        other => panic!("unexpected {:?}", other),
    }
}

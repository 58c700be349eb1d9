use mink::errors::{
    classify_anyhow, classify_error, classify_error_from_message, ErrorCategory, ErrorInfo,
    ErrorSeverity, RequestFault,
};

fn error(message: &'static str) -> anyhow::Error {
    anyhow::Error::msg(message)
}

#[test]
fn json_parse_error_is_parse() {
    let info = classify_anyhow(&error("json parse error: invalid syntax"));
    assert_eq!(info.category, ErrorCategory::Parse);
    assert!(!info.recoverable);
}

#[test]
fn tool_error_is_tool() {
    let info = classify_anyhow(&error("Error: tool execution failed: no such file"));
    assert_eq!(info.category, ErrorCategory::Tool);
    assert!(info.recoverable);
}

#[test]
fn auth_error_classification() {
    let info = classify_anyhow(&error("unauthorized: invalid api key"));
    assert_eq!(info.category, ErrorCategory::Auth);
    assert!(!info.recoverable);
}

#[test]
fn rate_limit_classification() {
    let info = classify_anyhow(&error("rate limit exceeded"));
    assert_eq!(info.category, ErrorCategory::RateLimit);
    assert!(info.recoverable);
}

#[test]
fn case_does_not_matter() {
    let info = classify_error_from_message("RATE LIMIT");
    assert_eq!(info.category, ErrorCategory::RateLimit);
    // The sign for kelvin is mapped to a small letter.
    assert_eq!(
        classify_error_from_message("API \u{212a}ey").category,
        ErrorCategory::Auth
    );
    assert_eq!(classify_error_from_message("odd").category, ErrorCategory::Internal);
    assert_eq!(classify_error_from_message("Unknown Tool").category, ErrorCategory::Parse);
    assert_eq!(
        classify_error_from_message("stream connection timeout").category,
        ErrorCategory::Network
    );
}

fn status(code: u16) -> Option<RequestFault> {
    Some(RequestFault { status: Some(code), unconnected: false, timed_out: false })
}

#[test]
fn status_decides_before_the_message() {
    let cases = [
        (400, ErrorCategory::Auth),
        (403, ErrorCategory::Auth),
        (404, ErrorCategory::Parse),
        (422, ErrorCategory::Parse),
        (429, ErrorCategory::RateLimit),
        (408, ErrorCategory::Network),
        (500, ErrorCategory::Network),
        (599, ErrorCategory::Network),
        (418, ErrorCategory::Internal),
    ];
    for (code, category) in cases {
        assert_eq!(classify_error(status(code), "json").category, category, "{code}");
    }
    let unreachable = RequestFault { status: None, unconnected: false, timed_out: true };
    assert_eq!(classify_error(Some(unreachable), "json").category, ErrorCategory::Network);
    let other = RequestFault { status: None, unconnected: false, timed_out: false };
    assert_eq!(classify_error(Some(other), "json").category, ErrorCategory::Parse);
    assert_eq!(classify_error(None, "json").category, ErrorCategory::Parse);
}

#[test]
fn kind_is_written_down() {
    let info = ErrorInfo::new(ErrorCategory::RateLimit, ErrorSeverity::Warning, true);
    assert_eq!(info.to_text(), "RateLimit/Warning/recoverable=true");
    let info = ErrorInfo::new(ErrorCategory::Internal, ErrorSeverity::Fatal, false);
    assert_eq!(info.to_text(), "Internal/Fatal/recoverable=false");
}

#[test]
fn request_that_cannot_be_made_has_no_status() {
    let client = reqwest::Client::builder().no_proxy().build().unwrap();
    let failed = client.get("no address").build().unwrap_err();
    let info = classify_anyhow(&anyhow::Error::new(failed).context("unauthorized"));
    assert_eq!(info.category, ErrorCategory::Auth);
}

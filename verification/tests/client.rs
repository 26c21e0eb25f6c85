use docsite_to_md::client::{
    retry_delay_ms, throttle_wait_nanos, AttemptEvent, FetchAction, FetchAttempts,
};
use docsite_to_md::{DocsiteError, FetchResult};

#[test]
fn throttle_waits_out_the_rate_limit() {
    assert_eq!(throttle_wait_nanos(0, Some(5)), 0);
    assert_eq!(throttle_wait_nanos(100, None), 0);
    assert_eq!(throttle_wait_nanos(100, Some(40_000_000)), 60_000_000);
    assert_eq!(throttle_wait_nanos(100, Some(100_000_000)), 0);
    assert_eq!(throttle_wait_nanos(100, Some(200_000_000)), 0);
}

#[test]
fn retry_delay_doubles_and_saturates() {
    assert_eq!(retry_delay_ms(0), 50);
    assert_eq!(retry_delay_ms(1), 100);
    assert_eq!(retry_delay_ms(2), 200);
    assert_eq!(retry_delay_ms(10), 51_200);
    assert_eq!(retry_delay_ms(58), 50 * (1u64 << 58));
    assert_eq!(retry_delay_ms(59), u64::MAX);
    assert_eq!(retry_delay_ms(200), u64::MAX);
}

#[test]
fn flaky_route_is_retried_then_read() {
    let mut f = FetchAttempts::new("http://127.0.0.1/guide", 2);
    match f.on_event(AttemptEvent::Responded(500)) {
        FetchAction::Retry(d) => assert_eq!(d, 50),
        _ => panic!("expected a retry"),
    }
    assert_eq!(f.attempt(), 1);
    assert!(matches!(f.on_event(AttemptEvent::Responded(200)), FetchAction::ReadBody));
    let body = FetchResult {
        final_url: "http://127.0.0.1/guide".to_string(),
        content_type: Some("text/html".to_string()),
        body: "<h1>Guide</h1>".to_string(),
    };
    match f.on_event(AttemptEvent::BodyRead(body)) {
        FetchAction::Finish(Ok(r)) => assert_eq!(r.body, "<h1>Guide</h1>"),
        _ => panic!("expected the body"),
    }
}

#[test]
fn last_unsuccessful_status_is_an_error() {
    let mut f = FetchAttempts::new("http://h/x", 1);
    match f.on_event(AttemptEvent::Responded(404)) {
        FetchAction::Retry(d) => assert_eq!(d, 50),
        _ => panic!("expected a retry"),
    }
    match f.on_event(AttemptEvent::Responded(404)) {
        FetchAction::Finish(Err(DocsiteError::HttpStatus { url, status })) => {
            assert_eq!(url, "http://h/x");
            assert_eq!(status, 404);
        }
        _ => panic!("expected a status error"),
    }
}

#[test]
fn failed_sends_end_with_the_last_message() {
    let mut f = FetchAttempts::new("http://h/y", 1);
    match f.on_event(AttemptEvent::SendFailed("first".to_string())) {
        FetchAction::Retry(d) => assert_eq!(d, 50),
        _ => panic!("expected a retry"),
    }
    match f.on_event(AttemptEvent::SendFailed("second".to_string())) {
        FetchAction::Finish(Err(e)) => {
            assert_eq!(e.message(), "request failed for http://h/y: second")
        }
        _ => panic!("expected a request error"),
    }
}

#[test]
fn body_read_failure_is_not_retried() {
    let mut f = FetchAttempts::new("http://h/z", 3);
    assert!(matches!(f.on_event(AttemptEvent::Responded(204)), FetchAction::ReadBody));
    match f.on_event(AttemptEvent::BodyFailed("eof".to_string())) {
        FetchAction::Finish(Err(DocsiteError::Request { url, message })) => {
            assert_eq!(url, "http://h/z");
            assert_eq!(message, "eof");
        }
        _ => panic!("expected a request error"),
    }
}

#[test]
fn zero_retries_means_one_attempt() {
    let mut f = FetchAttempts::new("http://h/", 0);
    assert!(matches!(
        f.on_event(AttemptEvent::Responded(503)),
        FetchAction::Finish(Err(DocsiteError::HttpStatus { status: 503, .. }))
    ));
}

#[test]
fn error_messages() {
    let cases = vec![
        (
            DocsiteError::Request { url: "u".to_string(), message: "m".to_string() },
            "request failed for u: m",
        ),
        (
            DocsiteError::HttpStatus { url: "u".to_string(), status: 404 },
            "unexpected status 404 for u",
        ),
        (DocsiteError::Io("disk".to_string()), "I/O error: disk"),
        (DocsiteError::Url("bad".to_string()), "URL parse error: bad"),
        (DocsiteError::Json("eof".to_string()), "JSON error: eof"),
        (DocsiteError::DetectionFailed("x".to_string()), "site detection failed for x"),
        (
            DocsiteError::BrowserUnavailable("no driver".to_string()),
            "browser fallback requested but unavailable: no driver",
        ),
        (
            DocsiteError::Unconvertible("https://x/a".to_string()),
            "HTML cannot be converted to Markdown: https://x/a",
        ),
    ];
    for (e, m) in cases {
        assert_eq!(e.message(), m);
    }
}

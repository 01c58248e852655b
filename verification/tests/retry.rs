//! Retry delays and provider hints.
use agentscope::model::openai::retry::parse_retry_after;
use agentscope::model::RetryPolicy;
use agentscope::time::Duration;

#[test]
fn exponential_delay_is_capped() {
    let policy = RetryPolicy::new(5)
        .with_initial_delay(Duration::from_millis(100))
        .with_max_delay(Duration::from_millis(250));

    assert_eq!(policy.delay(0, None), Duration::from_millis(100));
    assert_eq!(policy.delay(1, None), Duration::from_millis(200));
    assert_eq!(policy.delay(2, None), Duration::from_millis(250));
    assert_eq!(
        policy.delay(0, Some(Duration::from_secs(30))),
        Duration::from_millis(250)
    );
}

#[test]
fn retry_after_supports_seconds_and_http_dates() {
    let now = Duration::from_secs(1_700_000_000);
    let later = std::time::SystemTime::UNIX_EPOCH + std::time::Duration::from_secs(1_700_000_012);
    let date = httpdate::fmt_http_date(later);

    assert_eq!(parse_retry_after("7", now), Some(Duration::from_secs(7)));
    assert_eq!(parse_retry_after(&date, now), Some(Duration::from_secs(12)));
    assert_eq!(parse_retry_after("invalid", now), None);
}

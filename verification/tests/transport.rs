use plnk::transport::{
    retry_after_at, retry_after_delay, AttemptOutcome, RetrySource, TransportPolicy, MAX_RETRY_AFTER_NANOS,
};

#[test]
fn default_policy_matches_transport_spec() {
    let policy = TransportPolicy::default();
    assert_eq!(policy.max_in_flight, 8);
    assert_eq!(policy.rate_limit_per_second, Some(10));
    assert_eq!(policy.burst_size, Some(10));
    assert_eq!(policy.retry_attempts, 2);
    assert_eq!(policy.retry_base_delay_ms, 250);
    assert_eq!(policy.retry_max_delay_ms, 2_000);
    assert!(policy.retry_jitter);
    assert!(policy.retry_safe_methods_only);
}

fn rejected_field(policy: TransportPolicy) -> String {
    let err = policy.validate().unwrap_err();
    assert_eq!(err.error_type(), "InvalidOptionValue");
    err.message()
}

#[test]
fn policy_rejects_zero_max_in_flight() {
    let msg = rejected_field(TransportPolicy { max_in_flight: 0, ..TransportPolicy::default() });
    assert!(msg.contains("max_in_flight"));
}

#[test]
fn policy_rejects_zero_rate_limit() {
    let msg = rejected_field(TransportPolicy { rate_limit_per_second: Some(0), ..TransportPolicy::default() });
    assert!(msg.contains("rate_limit_per_second"));
}

#[test]
fn policy_rejects_zero_burst_size() {
    let msg = rejected_field(TransportPolicy { burst_size: Some(0), ..TransportPolicy::default() });
    assert!(msg.contains("burst_size"));
}

#[test]
fn policy_rejects_burst_without_rate_limit() {
    let msg = rejected_field(TransportPolicy {
        rate_limit_per_second: None,
        burst_size: Some(10),
        ..TransportPolicy::default()
    });
    assert!(msg.contains("burst_size"));
    assert!(msg.contains("rate_limit_per_second"));
}

#[test]
fn policy_rejects_zero_retry_base_delay() {
    let msg = rejected_field(TransportPolicy { retry_base_delay_ms: 0, ..TransportPolicy::default() });
    assert!(msg.contains("retry_base_delay_ms"));
}

#[test]
fn policy_rejects_retry_delay_inversion() {
    let msg = rejected_field(TransportPolicy {
        retry_base_delay_ms: 1_000,
        retry_max_delay_ms: 500,
        ..TransportPolicy::default()
    });
    assert!(msg.contains("retry_max_delay_ms"));
}

#[test]
fn default_policy_is_valid() {
    assert!(TransportPolicy::default().validate().is_ok());
    assert_eq!(TransportPolicy::default().rate_limiter_settings(), Some((10, 10)));
}

#[test]
fn safe_method_retry_classifier_matches_spec() {
    let policy = TransportPolicy::default();
    assert!(policy.should_retry_status("GET", 503));
    assert!(policy.should_retry_status("GET", 429));
    assert!(!policy.should_retry_status("GET", 404));
    assert!(!policy.should_retry_status("POST", 503));
}

#[test]
fn retry_delay_is_capped_by_max_delay() {
    let policy = TransportPolicy {
        retry_base_delay_ms: 500,
        retry_max_delay_ms: 1_000,
        retry_jitter: false,
        ..TransportPolicy::default()
    };
    assert_eq!(policy.retry_delay(1), 500);
    assert_eq!(policy.retry_delay(2), 1_000);
    assert_eq!(policy.retry_delay(3), 1_000);
}

#[test]
fn retry_delay_with_jitter_stays_within_bounds() {
    let policy = TransportPolicy {
        retry_base_delay_ms: 800,
        retry_max_delay_ms: 800,
        retry_jitter: true,
        ..TransportPolicy::default()
    };
    let delay = policy.retry_delay(1);
    assert!(delay >= 400);
    assert!(delay <= 800);
}

#[test]
fn retry_delay_with_fixed_jitter_source() {
    let policy = TransportPolicy {
        retry_base_delay_ms: 800,
        retry_max_delay_ms: 800,
        retry_jitter: true,
        ..TransportPolicy::default()
    };
    assert_eq!(policy.retry_delay_ms_with(1, 0), 400);
    assert_eq!(policy.retry_delay_ms_with(1, 400), 800);
    assert_eq!(policy.retry_delay_ms_with(1, 401), 400);
}

#[test]
fn retry_after_seconds_header_is_parsed() {
    assert_eq!(retry_after_delay(Some("3")), Some(3_000_000_000));
}

#[test]
fn retry_after_http_date_is_parsed() {
    let deadline = std::time::SystemTime::now() + std::time::Duration::from_secs(1);
    let header = httpdate::fmt_http_date(deadline);
    let delay = retry_after_delay(Some(header.as_str())).unwrap();
    assert!(delay <= 1_000_000_000);
}

#[test]
fn retry_after_is_clamped_to_upper_bound() {
    assert_eq!(retry_after_delay(Some("999")), Some(MAX_RETRY_AFTER_NANOS));
}

#[test]
fn retry_after_http_date_at_fixed_clock() {
    // 1994-11-06T08:49:37Z is 784111777 seconds after the epoch.
    let now = 784_111_770u128 * 1_000_000_000;
    assert_eq!(retry_after_at("Sun, 06 Nov 1994 08:49:37 GMT", now), Some(7_000_000_000));
    assert_eq!(retry_after_at("Sun, 06 Nov 1994 08:49:37 GMT", now + 60_000_000_000), None);
    assert_eq!(retry_after_at("soon", now), None);
    assert_eq!(retry_after_delay(None), None);
}

#[test]
fn plan_retry_prefers_retry_after_and_stops_after_budget() {
    let policy = TransportPolicy { retry_jitter: false, ..TransportPolicy::default() };
    let busy = AttemptOutcome::Response { status: 429, retry_after_nanos: Some(5) };
    let plan = policy.plan_retry("GET", 0, &busy, 0).unwrap();
    assert_eq!(plan.retry_number, 1);
    assert_eq!(plan.delay_nanos, 5);
    assert_eq!(plan.source, RetrySource::RetryAfter);

    let unavailable = AttemptOutcome::Response { status: 503, retry_after_nanos: None };
    let plan = policy.plan_retry("GET", 1, &unavailable, 0).unwrap();
    assert_eq!(plan.retry_number, 2);
    assert_eq!(plan.delay_nanos, 500_000_000);
    assert_eq!(plan.source, RetrySource::Backoff);

    assert!(policy.plan_retry("GET", 2, &unavailable, 0).is_none());
    assert!(policy.plan_retry("POST", 0, &unavailable, 0).is_none());

    let timeout = AttemptOutcome::Failure { timed_out: true, connect_failed: false };
    let plan = policy.plan_retry("get", 0, &timeout, 0).unwrap();
    assert_eq!(plan.source, RetrySource::Transport);
    assert_eq!(plan.delay_nanos, 250_000_000);
}

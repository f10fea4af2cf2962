use acs_smtp_relay::metrics::{Metrics, MAX_RESPONSE_TIMES};

#[test]
fn test_metrics_collection() {
    let mut metrics = Metrics::new();

    metrics.increment_connections();
    metrics.increment_emails_sent();
    metrics.add_bytes_processed(1024);
    metrics.record_response_time(100_000_000);

    assert_eq!(metrics.connections_total, 1);
    assert_eq!(metrics.connections_active, 1);
    assert_eq!(metrics.emails_sent_total, 1);
    assert_eq!(metrics.bytes_processed_total, 1024);
    assert_eq!(metrics.response_times.len(), 1);
}

#[test]
fn new_metrics_are_zero() {
    let metrics = Metrics::new();
    assert_eq!(metrics.connections_total, 0);
    assert_eq!(metrics.connections_active, 0);
    assert_eq!(metrics.emails_sent_total, 0);
    assert_eq!(metrics.emails_failed_total, 0);
    assert_eq!(metrics.bytes_processed_total, 0);
    assert!(metrics.response_times.is_empty());
    assert!(metrics.errors_by_type.is_empty());
    assert!(metrics.uptime_start.is_some());
    assert!(metrics.get_uptime().is_some());
    assert_eq!(metrics.get_average_response_time(), None);
}

#[test]
fn active_connections_never_go_below_zero() {
    let mut metrics = Metrics::new();
    metrics.decrement_active_connections();
    assert_eq!(metrics.connections_active, 0);
    metrics.increment_connections();
    metrics.increment_connections();
    metrics.decrement_active_connections();
    assert_eq!(metrics.connections_active, 1);
    assert_eq!(metrics.connections_total, 2);
}

#[test]
fn emails_are_counted() {
    let mut metrics = Metrics::new();
    metrics.increment_emails_sent();
    metrics.increment_emails_sent();
    metrics.increment_emails_failed();
    metrics.add_bytes_processed(10);
    metrics.add_bytes_processed(5);
    assert_eq!(metrics.emails_sent_total, 2);
    assert_eq!(metrics.emails_failed_total, 1);
    assert_eq!(metrics.bytes_processed_total, 15);
}

#[test]
fn only_the_latest_response_times_are_kept() {
    let mut metrics = Metrics::new();
    for i in 0..(MAX_RESPONSE_TIMES as u64 + 5) {
        metrics.record_response_time(i);
    }
    assert_eq!(MAX_RESPONSE_TIMES, 1000);
    assert_eq!(metrics.response_times.len(), 1000);
    assert_eq!(metrics.response_times[0], 5);
    assert_eq!(metrics.response_times[999], 1004);
}

#[test]
fn average_response_time_rounds_down() {
    let mut metrics = Metrics::new();
    metrics.record_response_time(10);
    assert_eq!(metrics.get_average_response_time(), Some(10));
    metrics.record_response_time(15);
    assert_eq!(metrics.get_average_response_time(), Some(12));
    metrics.record_response_time(u64::MAX);
    metrics.record_response_time(u64::MAX);
    assert_eq!(metrics.get_average_response_time(), Some(9223372036854775813));
}

#[test]
fn errors_are_counted_by_type() {
    let mut metrics = Metrics::new();
    metrics.increment_error("timeout");
    metrics.increment_error("auth");
    metrics.increment_error("timeout");
    assert_eq!(
        metrics.errors_by_type,
        vec![("timeout".to_string(), 2), ("auth".to_string(), 1)]
    );
}

#[test]
fn uptime_needs_a_start() {
    let mut metrics = Metrics::new();
    metrics.uptime_start = None;
    assert!(metrics.get_uptime().is_none());
}

use dnsbench::results::DnsTestResult;
use dnsbench::results::dns_stage_result;
use dnsbench::results::dns_timeout_result;
use dnsbench::results::mirror_result_of;
use dnsbench::results::mirror_should_stop;
use dnsbench::results::throughput_bps;

#[test]
fn throughput_exact_value() {
    // one megabyte in one second is eight megabits per second
    assert_eq!(throughput_bps(1_000_000, 1_000_000), 8_000_000);
    // 1 MiB in half a second
    assert_eq!(throughput_bps(1_048_576, 500_000), 16_777_216);
}

#[test]
fn throughput_zero_time_is_zero() {
    assert_eq!(throughput_bps(5, 0), 0);
    assert_eq!(throughput_bps(0, 5), 0);
}

#[test]
fn throughput_saturates() {
    assert_eq!(throughput_bps(u64::MAX, 1), u64::MAX);
}

#[test]
fn mirror_probe_stops_at_byte_cap_or_time_cap() {
    assert!(mirror_should_stop(1_048_576, 0));
    assert!(!mirror_should_stop(1_048_575, 7));
    assert!(mirror_should_stop(0, 8));
    assert!(!mirror_should_stop(0, 0));
}

#[test]
fn latency_failure_skips_download_stage() {
    let r = dns_stage_result(
        "1.1.1.1".to_string(),
        Err("no route".to_string()),
        None,
    );
    assert_eq!(r.ip, "1.1.1.1");
    assert!(r.latency_micros.is_none());
    assert!(r.download_speed_bps.is_none());
    assert_eq!(r.error.as_deref(), Some("Latency test failed: no route"));
}

#[test]
fn download_failure_keeps_the_latency() {
    let r = dns_stage_result(
        "1.1.1.1".to_string(),
        Ok(12_345),
        Some(Err("connection reset".to_string())),
    );
    assert_eq!(r.latency_micros, Some(12_345));
    assert!(r.download_speed_bps.is_none());
    assert_eq!(r.error.as_deref(), Some("Download test failed: connection reset"));
}

#[test]
fn both_stages_succeeding_leave_no_error() {
    let r = dns_stage_result(
        "8.8.8.8".to_string(),
        Ok(9_000),
        Some(Ok(55_000_000)),
    );
    assert_eq!(r.latency_micros, Some(9_000));
    assert_eq!(r.download_speed_bps, Some(55_000_000));
    assert!(r.error.is_none());
}

#[test]
fn timeout_discards_partial_progress() {
    let r = dns_timeout_result("1.1.1.1".to_string());
    assert_eq!(r.ip, "1.1.1.1");
    assert!(r.latency_micros.is_none());
    assert!(r.download_speed_bps.is_none());
    assert_eq!(r.error.as_deref(), Some("Test timed out (exceeded 7.5s)"));
}

#[test]
fn fresh_result_is_empty() {
    let r = DnsTestResult::new("9.9.9.9".to_string());
    assert_eq!(r.ip, "9.9.9.9");
    assert!(r.latency_micros.is_none());
    assert!(r.download_speed_bps.is_none());
    assert!(r.error.is_none());
}

#[test]
fn mirror_outcomes_map_to_results() {
    let ok = mirror_result_of(
        "alpha".to_string(),
        "https://alpha.example/x".to_string(),
        Ok(42_000_000),
    );
    assert_eq!(ok.name, "alpha");
    assert_eq!(ok.url, "https://alpha.example/x");
    assert_eq!(ok.speed_bps, Some(42_000_000));
    assert!(ok.error.is_none());

    let err = mirror_result_of(
        "beta".to_string(),
        "https://beta.example/x".to_string(),
        Err("Failed to connect: 503 Service Unavailable".to_string()),
    );
    assert!(err.speed_bps.is_none());
    assert_eq!(
        err.error.as_deref(),
        Some("Failed to connect: 503 Service Unavailable")
    );
}

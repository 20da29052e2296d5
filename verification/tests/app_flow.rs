use dnsbench::app::App;
use dnsbench::app::AppMode;
use dnsbench::app::AppState;
use dnsbench::app::KeyAction;
use dnsbench::app::KeyPress;
use dnsbench::app::TestResult;
use dnsbench::app::TestTarget;
use dnsbench::app::get_spinner;
use dnsbench::app::key_action;
use dnsbench::distro::Distro;
use dnsbench::results::DnsTestResult;
use dnsbench::results::MirrorTestResult;
use dnsbench::sort::SortColumn;

fn dns_result(ip: &str, latency: Option<u64>, speed: Option<u64>, error: Option<&str>) -> DnsTestResult {
    DnsTestResult {
        ip: ip.to_string(),
        latency_micros: latency,
        download_speed_bps: speed,
        error: error.map(|e| e.to_string()),
    }
}

#[test]
fn duplicate_address_is_rejected_on_second_add() {
    let mut app = App::new(Vec::new(), Distro::Unknown);
    app.add_dns_server("9.9.9.9".to_string());
    assert_eq!(app.dns_servers.len(), 1);
    assert!(app.error_message.is_none());
    app.add_dns_server("9.9.9.9".to_string());
    assert_eq!(app.dns_servers.len(), 1);
    assert_eq!(
        app.error_message.as_deref(),
        Some("9.9.9.9 is already in the list")
    );
}

#[test]
fn invalid_address_sets_validation_message() {
    let mut app = App::new(Vec::new(), Distro::Unknown);
    app.reject_invalid_address("not-an-ip".to_string());
    assert_eq!(app.error_message.as_deref(), Some("Invalid IP address: not-an-ip"));
    assert_eq!(app.dns_servers.len(), 0);
}

#[test]
fn start_testing_with_no_candidates_is_a_no_op() {
    let mut app = App::new(Vec::new(), Distro::Unknown);
    app.start_testing();
    assert_eq!(app.state, AppState::Input);
}

#[test]
fn full_run_ranks_results_and_keeps_best() {
    // Candidates 1.1.1.1 and 8.8.8.8; 1.1.1.1 measures 90 Mbps and
    // 8.8.8.8 measures 50 Mbps: the best pointer is 1.1.1.1 and the
    // throughput-descending ranking puts 1.1.1.1 first.
    let mut app = App::new(
        vec!["1.1.1.1".to_string(), "8.8.8.8".to_string()],
        Distro::Unknown,
    );
    app.start_testing();
    assert_eq!(app.state, AppState::Testing);
    assert_eq!(app.get_current_test_target().as_deref(), Some("1.1.1.1"));

    app.record_result(dns_result("1.1.1.1", Some(12_000), Some(90_000_000), None));
    assert_eq!(app.state, AppState::Testing);
    assert_eq!(app.get_current_test_target().as_deref(), Some("8.8.8.8"));

    app.record_result(dns_result("8.8.8.8", Some(10_000), Some(50_000_000), None));
    assert_eq!(app.state, AppState::Results);
    assert_eq!(app.results.len(), 2);
    assert_eq!(app.results[0].ip, "1.1.1.1");
    assert_eq!(app.results[1].ip, "8.8.8.8");
    assert_eq!(app.best_result.as_ref().unwrap().ip, "1.1.1.1");
}

#[test]
fn first_informative_result_becomes_best() {
    // A result with latency but no throughput and no error becomes best;
    // a later result with nothing measured and an error does not displace it.
    let mut app = App::new(
        vec!["1.1.1.1".to_string(), "8.8.8.8".to_string()],
        Distro::Unknown,
    );
    app.start_testing();
    app.record_result(dns_result("1.1.1.1", Some(15_000), None, None));
    assert_eq!(app.best_result.as_ref().unwrap().ip, "1.1.1.1");
    app.record_result(dns_result("8.8.8.8", None, None, Some("Latency test failed: boom")));
    assert_eq!(app.best_result.as_ref().unwrap().ip, "1.1.1.1");
}

#[test]
fn uninformative_result_never_becomes_best() {
    let mut app = App::new(vec!["1.1.1.1".to_string()], Distro::Unknown);
    app.start_testing();
    app.record_result(dns_result("1.1.1.1", None, None, None));
    assert!(app.best_result.is_none());
}

#[test]
fn best_pointer_never_regresses() {
    let mut app = App::new(
        vec![
            "1.1.1.1".to_string(),
            "8.8.8.8".to_string(),
            "9.9.9.9".to_string(),
        ],
        Distro::Unknown,
    );
    app.start_testing();
    app.record_result(dns_result("1.1.1.1", Some(10_000), Some(50_000_000), None));
    assert_eq!(app.best_result.as_ref().unwrap().ip, "1.1.1.1");
    app.record_result(dns_result("8.8.8.8", Some(10_000), Some(90_000_000), None));
    assert_eq!(app.best_result.as_ref().unwrap().ip, "8.8.8.8");
    app.record_result(dns_result("9.9.9.9", Some(10_000), Some(70_000_000), None));
    assert_eq!(app.best_result.as_ref().unwrap().ip, "8.8.8.8");
}

#[test]
fn speeds_within_tolerance_fall_back_to_latency() {
    // 50.005 vs 50.000 Mbps differ by less than 0.01 Mbps, so the lower
    // latency wins even though the throughput is a hair smaller.
    let mut app = App::new(
        vec!["1.1.1.1".to_string(), "8.8.8.8".to_string()],
        Distro::Unknown,
    );
    app.start_testing();
    app.record_result(dns_result("1.1.1.1", Some(20_000), Some(50_005_000), None));
    app.record_result(dns_result("8.8.8.8", Some(9_000), Some(50_000_000), None));
    assert_eq!(app.best_result.as_ref().unwrap().ip, "8.8.8.8");
}

#[test]
fn reset_clears_run_but_keeps_candidates() {
    let mut app = App::new(vec!["1.1.1.1".to_string()], Distro::Unknown);
    app.start_testing();
    app.record_result(dns_result("1.1.1.1", Some(10_000), Some(90_000_000), None));
    assert_eq!(app.state, AppState::Results);
    app.reset();
    assert_eq!(app.state, AppState::Input);
    assert_eq!(app.dns_servers.len(), 1);
    assert_eq!(app.results.len(), 0);
    assert!(app.best_result.is_none());
    assert_eq!(app.testing_index, 0);
    assert!(app.status_message.is_none());
}

#[test]
fn toggle_mode_flips_only_in_input_state() {
    let mut app = App::new(vec!["1.1.1.1".to_string()], Distro::Unknown);
    assert_eq!(app.mode, AppMode::Dns);
    app.toggle_mode();
    assert_eq!(app.mode, AppMode::Mirror);
    app.toggle_mode();
    assert_eq!(app.mode, AppMode::Dns);
    app.start_testing();
    app.toggle_mode();
    assert_eq!(app.mode, AppMode::Dns);
}

#[test]
fn mirror_best_tracks_highest_speed() {
    let mut app = App::new(Vec::new(), Distro::Unknown);
    app.mode = AppMode::Mirror;
    app.mirrors = vec![
        dnsbench::distro::Mirror {
            name: "alpha".to_string(),
            url: "https://alpha.example/x".to_string(),
            distro: Distro::Docker,
        },
        dnsbench::distro::Mirror {
            name: "beta".to_string(),
            url: "https://beta.example/x".to_string(),
            distro: Distro::Docker,
        },
    ];
    app.start_testing();
    app.record_mirror_result(MirrorTestResult {
        name: "alpha".to_string(),
        url: "https://alpha.example/x".to_string(),
        speed_bps: Some(20_000_000),
        error: None,
    });
    app.record_mirror_result(MirrorTestResult {
        name: "beta".to_string(),
        url: "https://beta.example/x".to_string(),
        speed_bps: Some(80_000_000),
        error: None,
    });
    assert_eq!(app.state, AppState::Results);
    assert_eq!(app.best_mirror_result.as_ref().unwrap().name, "beta");
    // mirror results rank by throughput descending by default
    assert_eq!(app.mirror_results[0].name, "beta");
}

#[test]
fn apply_outcome_messages() {
    let mut app = App::new(vec!["1.1.1.1".to_string()], Distro::Unknown);
    assert!(app.fastest_dns_target().is_none());
    app.note_no_valid_results();
    let (msg, is_err) = app.status_message.clone().unwrap();
    assert_eq!(msg, "No valid test results available.");
    assert!(is_err);

    app.start_testing();
    app.record_result(dns_result("1.1.1.1", Some(10_000), Some(90_000_000), None));
    assert_eq!(app.fastest_dns_target().as_deref(), Some("1.1.1.1"));
    app.note_apply_success("1.1.1.1".to_string());
    let (msg, is_err) = app.status_message.clone().unwrap();
    assert_eq!(msg, "Successfully set system DNS to 1.1.1.1");
    assert!(!is_err);
    app.note_apply_failure("permission denied".to_string());
    let (msg, is_err) = app.status_message.clone().unwrap();
    assert_eq!(msg, "Failed to set system DNS: permission denied");
    assert!(is_err);
}

#[test]
fn dispatch_protocol_keeps_one_probe_in_flight() {
    // Drive a whole run through the real capacity-1 queues, playing the
    // worker by hand, and watch the queue depth never exceed one.
    let (tx_target, mut rx_target) = tokio::sync::mpsc::channel::<TestTarget>(1);
    let (tx_result, rx_result) = tokio::sync::mpsc::channel::<TestResult>(1);
    let mut app = App::new(
        vec!["1.1.1.1".to_string(), "8.8.8.8".to_string()],
        Distro::Unknown,
    );
    app.tx = Some(tx_target);
    app.rx = Some(rx_result);

    app.start_testing();
    // exactly one request is queued
    let first = rx_target.try_recv().expect("first candidate should be dispatched");
    assert!(matches!(&first, TestTarget::Dns(ip) if ip == "1.1.1.1"));
    assert!(rx_target.try_recv().is_err());

    // nothing to drain yet
    app.update();
    assert_eq!(app.results.len(), 0);

    // the worker answers; the orchestrator records it and dispatches next
    tx_result
        .try_send(TestResult::Dns(dns_result("1.1.1.1", Some(10_000), Some(90_000_000), None)))
        .expect("result queue accepts one result");
    app.update();
    assert_eq!(app.results.len(), 1);
    assert_eq!(app.testing_index, 1);
    let second = rx_target.try_recv().expect("second candidate should be dispatched");
    assert!(matches!(&second, TestTarget::Dns(ip) if ip == "8.8.8.8"));
    assert!(rx_target.try_recv().is_err());

    tx_result
        .try_send(TestResult::Dns(dns_result("8.8.8.8", Some(10_000), Some(50_000_000), None)))
        .expect("result queue accepts one result");
    app.update();

    // run complete: one result per candidate, each candidate exactly once
    assert_eq!(app.state, AppState::Results);
    assert_eq!(app.results.len(), 2);
    assert!(app.results.iter().filter(|r| r.ip == "1.1.1.1").count() == 1);
    assert!(app.results.iter().filter(|r| r.ip == "8.8.8.8").count() == 1);
    assert!(rx_target.try_recv().is_err());
}

#[test]
fn tick_wraps_at_the_top() {
    let mut app = App::new(Vec::new(), Distro::Unknown);
    app.tick();
    assert_eq!(app.tick_count, 1);
    app.tick_count = u64::MAX;
    app.tick();
    assert_eq!(app.tick_count, 0);
}

#[test]
fn spinner_cycles_through_ten_frames() {
    assert_eq!(get_spinner(0), "\u{280b}");
    assert_eq!(get_spinner(3), "\u{2838}");
    assert_eq!(get_spinner(9), "\u{280f}");
    assert_eq!(get_spinner(10), "\u{280b}");
    assert_eq!(get_spinner(13), "\u{2838}");
}

#[test]
fn key_table_matches_the_interactive_loop() {
    assert_eq!(key_action(&AppState::Input, &KeyPress::Char('q')), KeyAction::Quit);
    assert_eq!(key_action(&AppState::Input, &KeyPress::Enter), KeyAction::SubmitAddress);
    assert_eq!(key_action(&AppState::Input, &KeyPress::Tab), KeyAction::StartTesting);
    assert_eq!(key_action(&AppState::Input, &KeyPress::Char('m')), KeyAction::ToggleMode);
    assert_eq!(key_action(&AppState::Input, &KeyPress::Backspace), KeyAction::RemoveLast);
    assert_eq!(key_action(&AppState::Input, &KeyPress::Char('x')), KeyAction::EditInput);
    assert_eq!(key_action(&AppState::Testing, &KeyPress::Char('q')), KeyAction::Quit);
    assert_eq!(key_action(&AppState::Testing, &KeyPress::Char('r')), KeyAction::Ignore);
    assert_eq!(key_action(&AppState::Results, &KeyPress::Char('r')), KeyAction::Reset);
    assert_eq!(key_action(&AppState::Results, &KeyPress::Char('s')), KeyAction::CycleSortColumn);
    assert_eq!(key_action(&AppState::Results, &KeyPress::Char('d')), KeyAction::ToggleSortDirection);
    assert_eq!(key_action(&AppState::Results, &KeyPress::Char('a')), KeyAction::ApplyFastest);
    assert_eq!(key_action(&AppState::Results, &KeyPress::Char('m')), KeyAction::ToggleMode);
    assert_eq!(key_action(&AppState::Results, &KeyPress::Tab), KeyAction::Ignore);
}

#[test]
fn remove_last_drops_only_the_newest() {
    let mut app = App::new(vec!["1.1.1.1".to_string(), "8.8.8.8".to_string()], Distro::Unknown);
    app.remove_last_dns_server();
    assert_eq!(app.dns_servers, vec!["1.1.1.1".to_string()]);
    app.remove_last_dns_server();
    assert!(app.dns_servers.is_empty());
    app.remove_last_dns_server();
    assert!(app.dns_servers.is_empty());
}

#[test]
fn cycle_ring_skips_name_in_dns_mode() {
    let mut app = App::new(Vec::new(), Distro::Unknown);
    assert_eq!(app.sort_column, SortColumn::DownloadSpeed);
    app.cycle_sort_column();
    assert_eq!(app.sort_column, SortColumn::Ip);
    app.cycle_sort_column();
    assert_eq!(app.sort_column, SortColumn::Latency);
    app.cycle_sort_column();
    assert_eq!(app.sort_column, SortColumn::DownloadSpeed);
    app.mode = AppMode::Mirror;
    app.cycle_sort_column();
    assert_eq!(app.sort_column, SortColumn::Name);
    app.cycle_sort_column();
    assert_eq!(app.sort_column, SortColumn::Ip);
}

#[test]
fn mirror_run_over_the_queues_records_each_mirror_once() {
    let (tx_target, mut rx_target) = tokio::sync::mpsc::channel::<TestTarget>(1);
    let (tx_result, rx_result) = tokio::sync::mpsc::channel::<TestResult>(1);
    let mut app = App::new(Vec::new(), Distro::Ubuntu);
    app.mode = AppMode::Mirror;
    app.mirrors = vec![dnsbench::distro::Mirror {
        name: "alpha".to_string(),
        url: "https://alpha.example/x".to_string(),
        distro: Distro::Ubuntu,
    }];
    app.tx = Some(tx_target);
    app.rx = Some(rx_result);

    app.start_testing();
    let target = rx_target.try_recv().expect("mirror should be dispatched");
    let mirror = match target {
        TestTarget::Mirror(m) => m,
        TestTarget::Dns(_) => panic!("expected a mirror target"),
    };
    assert_eq!(mirror.name, "alpha");

    tx_result
        .try_send(TestResult::Mirror(MirrorTestResult {
            name: mirror.name,
            url: mirror.url,
            speed_bps: Some(5_000_000),
            error: None,
        }))
        .expect("result queue accepts one result");
    app.update();
    assert_eq!(app.state, AppState::Results);
    assert_eq!(app.mirror_results.len(), 1);
    assert!(rx_target.try_recv().is_err());
}

#[test]
fn next_target_is_the_cursors_candidate() {
    let mut app = App::new(
        vec!["1.1.1.1".to_string(), "8.8.8.8".to_string()],
        Distro::Unknown,
    );
    app.start_testing();
    assert!(matches!(&app.next_target(), TestTarget::Dns(ip) if ip == "1.1.1.1"));
    app.record_result(dns_result("1.1.1.1", Some(10_000), Some(90_000_000), None));
    assert!(matches!(&app.next_target(), TestTarget::Dns(ip) if ip == "8.8.8.8"));
}

#[test]
fn next_target_in_mirror_mode_is_the_cursors_mirror() {
    let mut app = App::new(Vec::new(), Distro::Ubuntu);
    app.mode = AppMode::Mirror;
    app.mirrors = vec![dnsbench::distro::Mirror {
        name: "alpha".to_string(),
        url: "https://alpha.example/x".to_string(),
        distro: Distro::Ubuntu,
    }];
    app.start_testing();
    assert!(matches!(&app.next_target(), TestTarget::Mirror(m) if m.name == "alpha"));
}

use dnsbench::app::App;
use dnsbench::app::AppMode;
use dnsbench::distro::Distro;
use dnsbench::results::DnsTestResult;
use dnsbench::results::MirrorTestResult;
use dnsbench::sort::SortColumn;

fn dns_result(ip: &str, latency: Option<u64>, speed: Option<u64>) -> DnsTestResult {
    DnsTestResult {
        ip: ip.to_string(),
        latency_micros: latency,
        download_speed_bps: speed,
        error: None,
    }
}

fn mirror_result(name: &str, speed: Option<u64>) -> MirrorTestResult {
    MirrorTestResult {
        name: name.to_string(),
        url: format!("https://{}.example/x", name),
        speed_bps: speed,
        error: None,
    }
}

fn ips(app: &App) -> Vec<String> {
    app.results.iter().map(|r| r.ip.clone()).collect()
}

fn app_with_results(results: Vec<DnsTestResult>) -> App {
    let mut app = App::new(Vec::new(), Distro::Unknown);
    app.results = results;
    app
}

#[test]
fn sort_by_speed_descending_puts_fastest_first() {
    let mut app = app_with_results(vec![
        dns_result("8.8.8.8", Some(10_000), Some(50_000_000)),
        dns_result("1.1.1.1", Some(12_000), Some(90_000_000)),
    ]);
    app.sort_column = SortColumn::DownloadSpeed;
    app.sort_ascending = false;
    app.sort_results();
    assert_eq!(ips(&app), vec!["1.1.1.1".to_string(), "8.8.8.8".to_string()]);
}

#[test]
fn sorting_twice_equals_sorting_once() {
    let mut app = app_with_results(vec![
        dns_result("8.8.8.8", Some(10_000), Some(50_000_000)),
        dns_result("9.9.9.9", None, None),
        dns_result("1.1.1.1", Some(12_000), Some(90_000_000)),
    ]);
    app.sort_column = SortColumn::DownloadSpeed;
    app.sort_ascending = false;
    app.sort_results();
    let once = ips(&app);
    app.sort_results();
    assert_eq!(ips(&app), once);
}

#[test]
fn toggling_direction_twice_restores_the_order() {
    let mut app = app_with_results(vec![
        dns_result("8.8.8.8", Some(10_000), Some(50_000_000)),
        dns_result("9.9.9.9", Some(7_000), Some(10_000_000)),
        dns_result("1.1.1.1", Some(12_000), Some(90_000_000)),
    ]);
    app.sort_column = SortColumn::DownloadSpeed;
    app.sort_ascending = false;
    app.sort_results();
    let original = ips(&app);
    app.toggle_sort_direction();
    assert_ne!(ips(&app), original);
    app.toggle_sort_direction();
    assert_eq!(ips(&app), original);
}

#[test]
fn missing_latency_sorts_after_any_measured_latency() {
    let mut app = app_with_results(vec![
        dns_result("1.1.1.1", Some(5_000), None),
        dns_result("8.8.8.8", None, None),
        dns_result("9.9.9.9", Some(3_000), None),
    ]);
    app.sort_column = SortColumn::Latency;
    app.sort_ascending = true;
    app.sort_results();
    assert_eq!(
        ips(&app),
        vec!["9.9.9.9".to_string(), "1.1.1.1".to_string(), "8.8.8.8".to_string()]
    );
}

#[test]
fn missing_speed_sorts_before_any_measured_speed_ascending() {
    let mut app = app_with_results(vec![
        dns_result("1.1.1.1", None, Some(90_000_000)),
        dns_result("8.8.8.8", None, None),
        dns_result("9.9.9.9", None, Some(10_000_000)),
    ]);
    app.sort_column = SortColumn::DownloadSpeed;
    app.sort_ascending = true;
    app.sort_results();
    assert_eq!(
        ips(&app),
        vec!["8.8.8.8".to_string(), "9.9.9.9".to_string(), "1.1.1.1".to_string()]
    );
}

#[test]
fn address_sort_is_lexicographic_not_numeric() {
    // "10.0.0.2" precedes "9.9.9.9" in string order even though its first
    // octet is the larger number; the ranking deliberately compares the
    // textual forms.
    let mut app = app_with_results(vec![
        dns_result("9.9.9.9", None, None),
        dns_result("10.0.0.2", None, None),
    ]);
    app.sort_column = SortColumn::Ip;
    app.sort_ascending = true;
    app.sort_results();
    assert_eq!(ips(&app), vec!["10.0.0.2".to_string(), "9.9.9.9".to_string()]);
}

#[test]
fn equal_keys_keep_their_arrival_order() {
    let mut app = app_with_results(vec![
        dns_result("1.1.1.1", Some(10_000), Some(50_000_000)),
        dns_result("8.8.8.8", Some(11_000), Some(50_000_000)),
        dns_result("9.9.9.9", Some(12_000), Some(50_000_000)),
    ]);
    app.sort_column = SortColumn::DownloadSpeed;
    app.sort_ascending = false;
    app.sort_results();
    assert_eq!(
        ips(&app),
        vec!["1.1.1.1".to_string(), "8.8.8.8".to_string(), "9.9.9.9".to_string()]
    );
}

#[test]
fn name_column_sorts_mirror_results() {
    let mut app = App::new(Vec::new(), Distro::Unknown);
    app.mode = AppMode::Mirror;
    app.mirror_results = vec![
        mirror_result("gamma", Some(10_000_000)),
        mirror_result("alpha", Some(30_000_000)),
        mirror_result("beta", None),
    ];
    app.sort_column = SortColumn::Name;
    app.sort_ascending = true;
    app.sort_results();
    let names: Vec<String> = app.mirror_results.iter().map(|m| m.name.clone()).collect();
    assert_eq!(
        names,
        vec!["alpha".to_string(), "beta".to_string(), "gamma".to_string()]
    );
}

#[test]
fn speed_column_in_mirror_mode_sorts_mirrors_and_leaves_dns_alone() {
    let mut app = App::new(Vec::new(), Distro::Unknown);
    app.mode = AppMode::Mirror;
    app.results = vec![
        dns_result("9.9.9.9", None, Some(10_000_000)),
        dns_result("1.1.1.1", None, Some(90_000_000)),
    ];
    app.mirror_results = vec![
        mirror_result("slow", Some(10_000_000)),
        mirror_result("fast", Some(90_000_000)),
    ];
    app.sort_column = SortColumn::DownloadSpeed;
    app.sort_ascending = false;
    app.sort_results();
    let names: Vec<String> = app.mirror_results.iter().map(|m| m.name.clone()).collect();
    assert_eq!(names, vec!["fast".to_string(), "slow".to_string()]);
    // the DNS list was not the active one and is untouched
    assert_eq!(ips(&app), vec!["9.9.9.9".to_string(), "1.1.1.1".to_string()]);
}

#[test]
fn address_order_compares_character_by_character() {
    let mut app = app_with_results(vec![
        dns_result("1.1.1.10", None, None),
        dns_result("1.1.1.1", None, None),
        dns_result("1.1.1.2", None, None),
    ]);
    app.sort_column = SortColumn::Ip;
    app.sort_ascending = true;
    app.sort_results();
    assert_eq!(
        ips(&app),
        vec!["1.1.1.1".to_string(), "1.1.1.10".to_string(), "1.1.1.2".to_string()]
    );
}

#[test]
fn toggling_direction_twice_restores_name_order() {
    let mut app = App::new(Vec::new(), Distro::Unknown);
    app.mode = AppMode::Mirror;
    app.mirror_results = vec![
        mirror_result("beta", Some(10_000_000)),
        mirror_result("alpha", Some(30_000_000)),
        mirror_result("gamma", None),
    ];
    app.sort_column = SortColumn::Name;
    app.sort_ascending = true;
    app.sort_results();
    let names: Vec<String> = app.mirror_results.iter().map(|m| m.name.clone()).collect();
    app.toggle_sort_direction();
    app.toggle_sort_direction();
    let after: Vec<String> = app.mirror_results.iter().map(|m| m.name.clone()).collect();
    assert_eq!(after, names);
}

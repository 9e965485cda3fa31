use std::time::Duration;

use healthz_aggregator::config::{
    CheckConfig, CheckSpec, Config, DebouncePolicyConfig, GlobalConfig, GroupConfig, MetricsConfig,
    ResponseProfileConfig, ResponseSpecConfig, ServerConfig,
};
use healthz_aggregator::state::{
    aggregate_results, apply_debounce, consecutive_non_up, consecutive_raw_matches, uptime_text, AppState,
    CheckHistoryEntry, CheckResult, CheckStatus, WallTime,
};
use healthz_aggregator::strmap::StrMap;
use healthz_aggregator::timefmt::{fmt_rfc3339_opt, fmt_rfc3339_or_dash, now_rfc3339};

fn at(secs: u64) -> WallTime {
    WallTime { secs, nanos: 0, before_epoch: false }
}

fn spec() -> ResponseSpecConfig {
    ResponseSpecConfig { status_code: None, content_type: None, body: None }
}

fn check(name: &str, critical: bool, groups: &[&str], labels: &[(&str, &str)]) -> CheckConfig {
    let mut static_labels = StrMap::new();
    for (k, v) in labels {
        static_labels.insert(k.to_string(), v.to_string());
    }
    CheckConfig {
        name: name.to_string(),
        critical,
        static_labels,
        groups: groups.iter().map(|g| g.to_string()).collect(),
        debounce: DebouncePolicyConfig::default_policy(),
        spec: CheckSpec::Tcp { host: "localhost".to_string(), port: 1, timeout: None },
    }
}

fn config() -> Config {
    let mut global_labels = StrMap::new();
    global_labels.insert("Env".to_string(), "prod".to_string());
    global_labels.insert("team".to_string(), "ops".to_string());
    let mut response_profiles = StrMap::new();
    response_profiles.insert("plain".to_string(), ResponseProfileConfig { ok: spec(), fail: spec() });
    response_profiles.insert("json".to_string(), ResponseProfileConfig { ok: spec(), fail: spec() });
    let mut groups = StrMap::new();
    groups.insert(
        "web".to_string(),
        GroupConfig { default_profile: Some("plain".to_string()), profiles: vec!["plain".to_string(), "json".to_string()] },
    );
    groups.insert("data".to_string(), GroupConfig { default_profile: None, profiles: vec![] });
    groups.insert("empty".to_string(), GroupConfig { default_profile: None, profiles: vec![] });
    Config {
        server: ServerConfig { bind: "0.0.0.0:8998".to_string() },
        global: GlobalConfig {
            refresh_interval: Duration::from_secs(15),
            default_timeout: None,
            max_concurrency: None,
            history_size: 3,
        },
        metrics: Some(MetricsConfig { namespace: None, name: None, static_labels: Some(global_labels) }),
        notifications: None,
        response_profiles,
        groups,
        checks: vec![
            check("api", true, &["web"], &[("team", "web-team"), ("Tier", "front")]),
            check("db", true, &["data", "web"], &[]),
            check("cache", false, &["data"], &[]),
        ],
    }
}

fn result(name: &str, status: CheckStatus, critical: bool, last_run: Option<WallTime>, error: Option<&str>) -> CheckResult {
    CheckResult {
        name: name.to_string(),
        status,
        critical,
        last_run,
        duration: None,
        error: error.map(|e| e.to_string()),
        labels: StrMap::new(),
    }
}

fn entry(raw: CheckStatus) -> CheckHistoryEntry {
    CheckHistoryEntry { raw_status: raw, status: raw, critical: true, timestamp: at(1), duration: None, error: None }
}

#[test]
fn initial_results_are_pending_warnings() {
    let state = AppState::new(&config());
    let r = state.get("api").expect("configured check");
    assert_eq!(r.status, CheckStatus::Warn);
    assert_eq!(r.error.as_deref(), Some("not yet executed"));
    assert_eq!(r.last_run, None);
    assert!(state.get("nope").is_none());
    assert_eq!(state.snapshot().len(), 3);
    assert_eq!(state.refresh_interval(), Duration::from_secs(15));
}

#[test]
fn check_labels_override_sanitized_global_labels() {
    let state = AppState::new(&config());
    let api = state.get("api").unwrap();
    assert_eq!(api.labels.len(), 3);
    assert_eq!(api.labels.get("env").map(|s| s.as_str()), Some("prod"));
    assert_eq!(api.labels.get("team").map(|s| s.as_str()), Some("web-team"));
    assert_eq!(api.labels.get("tier").map(|s| s.as_str()), Some("front"));
    let db = state.get("db").unwrap();
    assert_eq!(db.labels.get("team").map(|s| s.as_str()), Some("ops"));
    let cfg = check("x", true, &[], &[("ENV", "dev")]);
    let merged = state.labels_for_check(&cfg);
    assert_eq!(merged.get("env").map(|s| s.as_str()), Some("dev"));
}

#[test]
fn group_queries() {
    let state = AppState::new(&config());
    assert_eq!(state.group_names(), vec!["data", "empty", "web"]);
    assert_eq!(state.group_check_count("web"), Some(2));
    assert_eq!(state.group_check_count("empty"), Some(0));
    assert_eq!(state.group_check_count("nope"), None);
    assert_eq!(state.profile_names_for_group("web"), Some(vec!["json".to_string(), "plain".to_string()]));
    assert_eq!(state.profile_names_for_group("data"), Some(vec![]));
    assert_eq!(state.profile_names_for_group("nope"), None);
    assert!(state.group_allows_profile("web", "json"));
    assert!(!state.group_allows_profile("data", "json"));
    assert!(!state.group_allows_profile("nope", "json"));
    assert_eq!(state.default_profile_name_for_group("web"), Some("plain"));
    assert_eq!(state.default_profile_name_for_group("data"), None);
    assert!(state.response_profile("json").is_some());
    assert!(state.response_profile("xml").is_none());
    assert_eq!(state.check_configs().len(), 3);
    let mut names: Vec<String> = state.snapshot_for_group("data").unwrap().into_iter().map(|r| r.name).collect();
    names.sort();
    assert_eq!(names, vec!["cache", "db"]);
    assert!(state.snapshot_for_group("nope").is_none());
    assert_eq!(state.snapshot_for_group("empty").unwrap().len(), 0);
}

#[test]
fn status_changes_raise_events_once_a_check_has_run() {
    let mut state = AppState::new(&config());
    // The pending result has never run: no event.
    assert!(state.update(result("db", CheckStatus::Down, true, Some(at(10)), Some("refused"))).is_none());
    // Same status: no event.
    assert!(state.update(result("db", CheckStatus::Down, true, Some(at(20)), Some("refused"))).is_none());
    let ev = state.update(result("db", CheckStatus::Up, true, Some(at(30)), None)).expect("recovery");
    assert_eq!(ev.check_name, "db");
    assert_eq!(ev.old_status, CheckStatus::Down);
    assert_eq!(ev.new_status, CheckStatus::Up);
    assert_eq!(ev.timestamp, "1970-01-01T00:00:30Z");
    assert_eq!(ev.groups, vec!["data", "web"]);
    assert!(ev.error.is_none());
}

#[test]
fn histories_keep_the_newest_entries_and_skip_unrun_results() {
    let mut state = AppState::new(&config());
    assert_eq!(state.history_for_check("api").map(|h| h.len()), Some(0));
    assert!(state.history_for_check("nope").is_none());
    let _ = state.update(result("api", CheckStatus::Up, true, None, None));
    assert_eq!(state.history_for_check("api").unwrap().len(), 0);
    for s in 1..=5u64 {
        let _ = state.update(result("api", CheckStatus::Up, true, Some(at(s)), None));
    }
    let h = state.history_for_check("api").unwrap();
    assert_eq!(h.iter().map(|e| e.timestamp.secs).collect::<Vec<_>>(), vec![3, 4, 5]);
    let recent = state.recent_history_snapshot(2);
    let api = recent.get("api").expect("api has history");
    assert_eq!(api.iter().map(|e| e.timestamp.secs).collect::<Vec<_>>(), vec![4, 5]);
    assert!(recent.get("db").is_none());
}

#[test]
fn debounce_holds_status_until_thresholds_are_met() {
    let policy = DebouncePolicyConfig { fail_after: 3, recover_after: 2 };
    let up = result("a", CheckStatus::Up, true, Some(at(1)), None);
    let down = result("a", CheckStatus::Down, true, Some(at(2)), Some("x"));
    // One failure after UP is held back.
    let r = apply_debounce(Some(&up), &vec![entry(CheckStatus::Up)], &policy, &down);
    assert_eq!(r.status, CheckStatus::Up);
    assert!(r.error.is_none());
    // The third consecutive failure goes through.
    let h = vec![entry(CheckStatus::Down), entry(CheckStatus::Warn)];
    let r = apply_debounce(Some(&up), &h, &policy, &down);
    assert_eq!(r.status, CheckStatus::Down);
    assert_eq!(r.error.as_deref(), Some("x"));
    // The first UP after a failure is held back with the old error.
    let r = apply_debounce(Some(&down), &vec![entry(CheckStatus::Down)], &policy, &up);
    assert_eq!(r.status, CheckStatus::Down);
    assert_eq!(r.error.as_deref(), Some("x"));
    // The second consecutive UP recovers.
    let r = apply_debounce(Some(&down), &vec![entry(CheckStatus::Up)], &policy, &up);
    assert_eq!(r.status, CheckStatus::Up);
    assert!(r.error.is_none());
    // Debouncing keeps the identity of the raw result.
    assert_eq!(r.name, "a");
    assert!(r.critical);
    assert_eq!(r.last_run, Some(at(1)));
    // Without a previous result the raw result is reported.
    let r = apply_debounce(None, &vec![], &policy, &down);
    assert_eq!(r.status, CheckStatus::Down);
}

#[test]
fn trailing_counts() {
    let h = vec![entry(CheckStatus::Up), entry(CheckStatus::Down), entry(CheckStatus::Warn), entry(CheckStatus::Warn)];
    assert_eq!(consecutive_raw_matches(&h, CheckStatus::Warn), 2);
    assert_eq!(consecutive_raw_matches(&h, CheckStatus::Up), 0);
    assert_eq!(consecutive_non_up(&h), 3);
    assert_eq!(consecutive_non_up(&vec![]), 0);
}

#[test]
fn aggregation_counts_and_splits_problems() {
    let rs = vec![
        result("a", CheckStatus::Up, true, None, None),
        result("b", CheckStatus::Down, true, None, Some("x")),
        result("c", CheckStatus::Down, false, None, Some("y")),
        result("d", CheckStatus::Warn, true, None, None),
    ];
    let (ok, summary, failed, warn) = aggregate_results(&rs);
    assert!(!ok);
    assert_eq!((summary.total, summary.up, summary.warn, summary.down, summary.critical_down), (4, 1, 1, 2, 1));
    assert_eq!(failed.iter().map(|r| r.name.as_str()).collect::<Vec<_>>(), vec!["b"]);
    assert_eq!(warn.iter().map(|r| r.name.as_str()).collect::<Vec<_>>(), vec!["c", "d"]);
    let (ok, summary, failed, warn) = aggregate_results(&vec![]);
    assert!(ok);
    assert_eq!(summary.total, 0);
    assert!(failed.is_empty() && warn.is_empty());
}

#[test]
fn non_critical_failures_keep_the_aggregate_ok() {
    let mut state = AppState::new(&config());
    let _ = state.update(result("api", CheckStatus::Up, true, Some(at(1)), None));
    let _ = state.update(result("db", CheckStatus::Up, true, Some(at(1)), None));
    let _ = state.update(result("cache", CheckStatus::Down, false, Some(at(1)), Some("slow")));
    let (ok, summary, failed, warn) = state.aggregate_snapshot();
    assert!(ok);
    assert_eq!(summary.critical_down, 0);
    assert!(failed.is_empty());
    assert_eq!(warn.len(), 1);
    let (ok, summary, _, _) = state.aggregate_snapshot_for_group("data").unwrap();
    assert!(ok);
    assert_eq!(summary.total, 2);
    assert!(state.aggregate_snapshot_for_group("nope").is_none());
}

#[test]
fn uptime_formats() {
    assert_eq!(uptime_text(Duration::new(5, 123_000_000)), "5.123 s");
    assert_eq!(uptime_text(Duration::ZERO), "0.000 s");
    assert_eq!(uptime_text(Duration::new(125, 999_000_000)), "2m 5s");
    assert_eq!(uptime_text(Duration::from_secs(3720)), "1h 02m");
    assert_eq!(uptime_text(Duration::from_secs(3600 * 13 + 60 * 45)), "13h 45m");
    assert_eq!(uptime_text(Duration::from_secs(90_000)), "1d 1h");
    let state = AppState::new(&config());
    assert!(state.uptime().ends_with(" s"));
}

#[test]
fn rfc3339_rendering() {
    assert_eq!(fmt_rfc3339_opt(None), None);
    assert_eq!(fmt_rfc3339_opt(Some(at(0))).as_deref(), Some("1970-01-01T00:00:00Z"));
    assert_eq!(fmt_rfc3339_or_dash(Some(WallTime { secs: 5, nanos: 0, before_epoch: true })), "-");
    assert_eq!(fmt_rfc3339_or_dash(None), "-");
    assert_eq!(now_rfc3339(WallTime { secs: 1_700_000_000, nanos: 999, before_epoch: false }), "2023-11-14T22:13:20Z");
    assert_eq!(now_rfc3339(at(300_000_000_000)), "-");
}

#[test]
fn streaks_follow_recorded_results() {
    let mut cfg = config();
    cfg.checks[1].debounce = DebouncePolicyConfig { fail_after: 3, recover_after: 1 };
    let mut state = AppState::new(&cfg);
    let _ = state.update(result("db", CheckStatus::Up, true, Some(at(1)), None));
    for s in 2..=3u64 {
        let _ = state.update(result("db", CheckStatus::Down, true, Some(at(s)), Some("x")));
        assert_eq!(state.get("db").unwrap().status, CheckStatus::Up);
    }
    let h = state.history_for_check("db").unwrap();
    assert_eq!(consecutive_non_up(&h), 2);
    let _ = state.update(result("db", CheckStatus::Warn, true, Some(at(4)), Some("y")));
    assert_eq!(state.get("db").unwrap().status, CheckStatus::Warn);
    let h = state.history_for_check("db").unwrap();
    assert_eq!(consecutive_non_up(&h), 3);
    assert_eq!(consecutive_raw_matches(&h, CheckStatus::Up), 0);
}

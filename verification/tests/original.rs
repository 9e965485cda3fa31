use std::time::{Duration, SystemTime, UNIX_EPOCH};

use healthz_aggregator::cli::ui_url_from_bind;
use healthz_aggregator::config::{
    CheckConfig, CheckSpec, Config, DebouncePolicyConfig, GlobalConfig, GroupConfig,
    ResponseProfileConfig, ResponseSpecConfig, ServerConfig,
};
use healthz_aggregator::state::{sanitize_label_name, AppState, CheckResult, CheckStatus, WallTime};
use healthz_aggregator::strmap::StrMap;

fn now() -> WallTime {
    let d = SystemTime::now().duration_since(UNIX_EPOCH).unwrap();
    WallTime { secs: d.as_secs(), nanos: d.subsec_nanos(), before_epoch: false }
}

fn empty_spec() -> ResponseSpecConfig {
    ResponseSpecConfig { status_code: None, content_type: None, body: None }
}

fn tcp_check(name: &str, port: u16, groups: Vec<String>) -> CheckConfig {
    CheckConfig {
        name: name.to_string(),
        critical: true,
        static_labels: StrMap::new(),
        groups,
        debounce: DebouncePolicyConfig::default_policy(),
        spec: CheckSpec::Tcp { host: "localhost".to_string(), port, timeout: None },
    }
}

fn base_config() -> Config {
    Config {
        server: ServerConfig { bind: "127.0.0.1:8998".to_string() },
        global: GlobalConfig {
            refresh_interval: Duration::from_secs(30),
            default_timeout: None,
            max_concurrency: None,
            history_size: 20,
        },
        metrics: None,
        notifications: None,
        response_profiles: StrMap::new(),
        groups: StrMap::new(),
        checks: vec![],
    }
}

fn test_config() -> Config {
    let mut cfg = base_config();
    cfg.response_profiles.insert(
        "hw-lb".to_string(),
        ResponseProfileConfig { ok: empty_spec(), fail: empty_spec() },
    );
    cfg.groups.insert(
        "public-lb".to_string(),
        GroupConfig { default_profile: Some("hw-lb".to_string()), profiles: vec!["hw-lb".to_string()] },
    );
    cfg.groups.insert("internal-ui".to_string(), GroupConfig { default_profile: None, profiles: vec![] });
    cfg.checks = vec![
        tcp_check("public-api", 80, vec!["public-lb".to_string()]),
        tcp_check("internal-db", 5432, vec!["internal-ui".to_string()]),
    ];
    cfg
}

fn result(name: &str, status: CheckStatus, last_run: Option<WallTime>, error: Option<&str>) -> CheckResult {
    CheckResult {
        name: name.to_string(),
        status,
        critical: true,
        last_run,
        duration: None,
        error: error.map(|e| e.to_string()),
        labels: StrMap::new(),
    }
}

#[test]
fn rejects_unknown_group_reference() {
    let mut cfg = base_config();
    cfg.checks = vec![tcp_check("api", 80, vec!["missing".to_string()])];
    let err = cfg.validate().expect_err("config should fail validation");
    assert!(err.message().contains("unknown group 'missing'"));
}

#[test]
fn rejects_unknown_response_profile_reference() {
    let mut cfg = base_config();
    cfg.groups.insert(
        "public".to_string(),
        GroupConfig { default_profile: Some("missing".to_string()), profiles: vec![] },
    );
    let err = cfg.validate().expect_err("config should fail validation");
    assert!(err.message().contains("unknown default_profile 'missing'"));
}

#[test]
fn rejects_default_profile_not_in_whitelist() {
    let mut cfg = base_config();
    cfg.response_profiles.insert(
        "json".to_string(),
        ResponseProfileConfig {
            ok: ResponseSpecConfig { status_code: None, content_type: None, body: Some("{\"status\":\"ok\"}".to_string()) },
            fail: empty_spec(),
        },
    );
    cfg.groups.insert(
        "public".to_string(),
        GroupConfig { default_profile: Some("json".to_string()), profiles: vec![] },
    );
    let err = cfg.validate().expect_err("config should fail validation");
    assert!(err.message().contains("must also be present in profiles"));
}

#[test]
fn ui_url_from_bind_localhost() {
    assert_eq!(ui_url_from_bind("0.0.0.0:8080").as_deref(), Some("http://localhost:8080/ui"));
    assert_eq!(ui_url_from_bind("[::]:9000").as_deref(), Some("http://localhost:9000/ui"));
    assert_eq!(ui_url_from_bind("127.0.0.1:1234").as_deref(), Some("http://localhost:1234/ui"));
}

#[test]
fn sanitize_label_name_basic() {
    assert_eq!(sanitize_label_name("Env"), "env");
    assert_eq!(sanitize_label_name("a-b.c"), "a_b_c");
    assert_eq!(sanitize_label_name("9lives"), "_9lives");
    assert_eq!(sanitize_label_name(""), "_");
}

#[test]
fn aggregates_only_checks_in_selected_group() {
    let mut state = AppState::new(&test_config());
    let _ = state.update(result("public-api", CheckStatus::Up, None, None));
    let _ = state.update(result("internal-db", CheckStatus::Down, None, Some("db down")));

    let (ok, summary, failed, warned) =
        state.aggregate_snapshot_for_group("public-lb").expect("group should exist");

    assert!(ok);
    assert_eq!(summary.total, 1);
    assert_eq!(summary.up, 1);
    assert_eq!(summary.down, 0);
    assert!(failed.is_empty());
    assert!(warned.is_empty());
}

#[test]
fn keeps_only_last_n_history_entries() {
    let mut cfg = test_config();
    cfg.global.history_size = 2;
    let mut state = AppState::new(&cfg);

    for status in [CheckStatus::Up, CheckStatus::Warn, CheckStatus::Down] {
        let _ = state.update(result("public-api", status, Some(now()), None));
    }

    let history = state.history_for_check("public-api").expect("history should exist");
    assert_eq!(history.len(), 2);
    assert_eq!(history[0].status, CheckStatus::Warn);
    assert_eq!(history[1].status, CheckStatus::Down);
}

#[test]
fn applies_fail_and_recover_debounce_thresholds() {
    let mut cfg = test_config();
    cfg.checks[0].debounce = DebouncePolicyConfig { fail_after: 2, recover_after: 2 };
    let mut state = AppState::new(&cfg);

    let _ = state.update(result("public-api", CheckStatus::Up, Some(now()), None));
    let _ = state.update(result("public-api", CheckStatus::Up, Some(now()), None));

    let _ = state.update(result("public-api", CheckStatus::Down, Some(now()), Some("first failure")));
    assert_eq!(state.get("public-api").expect("check exists").status, CheckStatus::Up);

    let _ = state.update(result("public-api", CheckStatus::Down, Some(now()), Some("second failure")));
    assert_eq!(state.get("public-api").expect("check exists").status, CheckStatus::Down);

    let _ = state.update(result("public-api", CheckStatus::Up, Some(now()), None));
    assert_eq!(state.get("public-api").expect("check exists").status, CheckStatus::Down);

    let _ = state.update(result("public-api", CheckStatus::Up, Some(now()), None));
    assert_eq!(state.get("public-api").expect("check exists").status, CheckStatus::Up);
}

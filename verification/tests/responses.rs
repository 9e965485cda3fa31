use std::time::Duration;

use healthz_aggregator::cli::{
    aggregate_text, exit_code, problem_lines, select_checks, single_check_failed, single_check_lines, status_text,
    summary_text, ui_url_from_bind, SelectError,
};
use healthz_aggregator::config::{
    default_true, CheckConfig, CheckSpec, Config, ConfigError, DebouncePolicyConfig, GlobalConfig, GroupConfig,
    MetricsConfig, ResponseProfileConfig, ResponseSpecConfig, ServerConfig, WebhookNotificationConfig,
    WebhookNotificationEvent,
};
use healthz_aggregator::healthz::{
    aggregate_healthz, aggregate_response, custom_aggregate_response, default_content_type, group_aggregate_healthz,
    group_details_healthz, group_profile_healthz, is_valid_header_value, HealthResponse, NotFound,
};
use healthz_aggregator::metrics::{
    group_metric_samples, metric_layout, metric_samples, GROUP_DOWN_METRIC, GROUP_TOTAL_METRIC, GROUP_UP_METRIC,
    GROUP_WARN_METRIC,
};
use healthz_aggregator::notifier::{should_send, NotificationEventType, StatusChangeEvent};
use healthz_aggregator::state::{AggregateSummary, AppState, CheckResult, CheckStatus, WallTime};
use healthz_aggregator::strmap::StrMap;
use healthz_aggregator::ui::{
    build_group_options, build_profile_options, build_ui_model, check_row, error_to_popover_html, html_escape,
    labels_to_popover_html, labels_to_vec, refresh_settings, snapshot_check, status_str,
};

fn spec(code: Option<u16>, ct: Option<&str>, body: Option<&str>) -> ResponseSpecConfig {
    ResponseSpecConfig { status_code: code, content_type: ct.map(|s| s.to_string()), body: body.map(|s| s.to_string()) }
}

fn check(name: &str, critical: bool, groups: &[&str]) -> CheckConfig {
    CheckConfig {
        name: name.to_string(),
        critical,
        static_labels: StrMap::new(),
        groups: groups.iter().map(|g| g.to_string()).collect(),
        debounce: DebouncePolicyConfig::default_policy(),
        spec: CheckSpec::Tcp { host: "localhost".to_string(), port: 1, timeout: None },
    }
}

fn config() -> Config {
    let mut response_profiles = StrMap::new();
    response_profiles.insert(
        "lb".to_string(),
        ResponseProfileConfig {
            ok: spec(Some(204), None, Some("up")),
            fail: spec(Some(500), Some("text/x-lb"), None),
        },
    );
    response_profiles.insert(
        "json".to_string(),
        ResponseProfileConfig { ok: spec(None, None, Some(" {\"ok\":true}")), fail: spec(Some(42), None, None) },
    );
    let mut groups = StrMap::new();
    groups.insert(
        "edge".to_string(),
        GroupConfig { default_profile: Some("lb".to_string()), profiles: vec!["lb".to_string(), "json".to_string()] },
    );
    groups.insert("core".to_string(), GroupConfig { default_profile: None, profiles: vec![] });
    groups.insert("spare".to_string(), GroupConfig { default_profile: None, profiles: vec![] });
    Config {
        server: ServerConfig { bind: "0.0.0.0:8998".to_string() },
        global: GlobalConfig {
            refresh_interval: Duration::from_secs(90),
            default_timeout: None,
            max_concurrency: None,
            history_size: 5,
        },
        metrics: None,
        notifications: None,
        response_profiles,
        groups,
        checks: vec![check("web", true, &["edge"]), check("db", true, &["core", "edge"]), check("queue", false, &["core"])],
    }
}

fn result(name: &str, status: CheckStatus, critical: bool, error: Option<&str>) -> CheckResult {
    CheckResult {
        name: name.to_string(),
        status,
        critical,
        last_run: Some(WallTime { secs: 60, nanos: 0, before_epoch: false }),
        duration: Some(Duration::from_millis(1500)),
        error: error.map(|e| e.to_string()),
        labels: StrMap::new(),
    }
}

fn running_state() -> AppState {
    let mut state = AppState::new(&config());
    let _ = state.update(result("web", CheckStatus::Up, true, None));
    let _ = state.update(result("db", CheckStatus::Down, true, Some("refused")));
    let _ = state.update(result("queue", CheckStatus::Up, false, None));
    state
}

#[test]
fn configuration_validation() {
    let cfg = config();
    assert!(cfg.validate().is_ok());
    assert!(default_true());
    let mut bad = config();
    bad.checks.push(check("x", true, &["ghost"]));
    let err = bad.validate().unwrap_err();
    assert!(matches!(err, ConfigError::UnknownGroup { .. }));
    assert_eq!(err.message(), "check 'x' references unknown group 'ghost'");
    let mut bad = config();
    bad.groups.insert("g".to_string(), GroupConfig { default_profile: None, profiles: vec!["nope".to_string()] });
    assert_eq!(bad.validate().unwrap_err().message(), "group 'g' references unknown profile 'nope'");
    // Groups are checked before checks, and within a group the default
    // profile comes first, then the listed profiles in order.
    let mut bad = config();
    bad.checks.push(check("x", true, &["ghost"]));
    bad.groups.insert(
        "h".to_string(),
        GroupConfig { default_profile: Some("gone".to_string()), profiles: vec!["lb".to_string(), "nope".to_string()] },
    );
    assert_eq!(bad.validate().unwrap_err().message(), "group 'h' references unknown default_profile 'gone'");
    let mut bad = config();
    bad.groups.insert(
        "h".to_string(),
        GroupConfig { default_profile: Some("json".to_string()), profiles: vec!["x1".to_string(), "x2".to_string()] },
    );
    assert_eq!(bad.validate().unwrap_err().message(), "group 'h' references unknown profile 'x1'");
    let mut bad = config();
    bad.groups.insert("h".to_string(), GroupConfig { default_profile: Some("json".to_string()), profiles: vec![] });
    assert_eq!(bad.validate().unwrap_err().message(), "group 'h' default_profile 'json' must also be present in profiles");
}

#[test]
fn content_types_and_header_values() {
    assert_eq!(default_content_type(&spec(None, None, Some("  {\"a\":1}"))), "application/json");
    assert_eq!(default_content_type(&spec(None, None, Some("[1]"))), "text/plain; charset=utf-8");
    assert_eq!(default_content_type(&spec(None, None, None)), "text/plain; charset=utf-8");
    assert!(is_valid_header_value("text/plain; charset=utf-8"));
    assert!(is_valid_header_value("a\tb é"));
    assert!(!is_valid_header_value("bad\nvalue"));
    assert!(!is_valid_header_value("bad\u{7f}"));
}

#[test]
fn profile_responses_fill_in_defaults() {
    let cfg = config();
    let lb = cfg.response_profiles.get("lb").unwrap();
    let r = custom_aggregate_response(lb, true);
    assert_eq!((r.status, r.body.as_str(), r.content_type.as_str()), (204, "up", "text/plain; charset=utf-8"));
    let r = custom_aggregate_response(lb, false);
    assert_eq!((r.status, r.body.as_str(), r.content_type.as_str()), (500, "FAILED", "text/x-lb"));
    let json = cfg.response_profiles.get("json").unwrap();
    let r = custom_aggregate_response(json, true);
    assert_eq!((r.status, r.body.as_str(), r.content_type.as_str()), (200, " {\"ok\":true}", "application/json"));
    let r = custom_aggregate_response(json, false);
    assert_eq!((r.status, r.body.as_str()), (503, "FAILED"));
    let odd = ResponseProfileConfig { ok: spec(None, Some("bad\r\nheader"), None), fail: spec(None, None, None) };
    let r = custom_aggregate_response(&odd, true);
    assert_eq!((r.status, r.body.as_str(), r.content_type.as_str()), (200, "OK", "text/plain; charset=utf-8"));
}

#[test]
fn aggregate_endpoints() {
    let state = running_state();
    let all = aggregate_healthz(&state);
    assert!(!all.ok);
    assert_eq!(all.summary, AggregateSummary { total: 3, up: 2, warn: 0, down: 1, critical_down: 1 });
    assert!(matches!(all.response, HealthResponse::BuiltIn { status: 503 }));
    assert_eq!(all.failed.len(), 1);

    let edge = group_aggregate_healthz(&state, "edge").expect("known group");
    assert!(!edge.ok);
    assert!(matches!(edge.response, HealthResponse::Custom(ref c) if c.status == 500 && c.content_type == "text/x-lb"));
    let core = group_aggregate_healthz(&state, "core").unwrap();
    assert!(matches!(core.response, HealthResponse::BuiltIn { status: 503 }));
    assert!(group_aggregate_healthz(&state, "nope").is_none());

    let j = group_profile_healthz(&state, "edge", "json").ok().expect("whitelisted");
    assert!(matches!(j.response, HealthResponse::Custom(ref c) if c.status == 503));
    assert_eq!((j.ok, j.summary), (edge.ok, edge.summary));
    assert_eq!(j.failed.len(), edge.failed.len());
    assert_eq!(j.warn.len(), edge.warn.len());
    assert!(matches!(group_profile_healthz(&state, "core", "json"), Err(NotFound::Profile)));
    assert!(matches!(group_profile_healthz(&state, "nope", "json"), Err(NotFound::Profile)));

    let spare = group_aggregate_healthz(&state, "spare").unwrap();
    assert!(spare.ok);
    assert_eq!(spare.summary.total, 0);
    assert!(matches!(spare.response, HealthResponse::BuiltIn { status: 200 }));

    assert!(matches!(aggregate_response(&state, true, Some("edge"), Some("unknown")), HealthResponse::BuiltIn { status: 200 }));
    assert!(matches!(aggregate_response(&state, true, None, Some("lb")), HealthResponse::Custom(ref c) if c.body == "up"));
}

#[test]
fn group_details_are_ordered_by_name() {
    let state = running_state();
    let d = group_details_healthz(&state, "edge").unwrap();
    assert_eq!(d.iter().map(|r| r.name.as_str()).collect::<Vec<_>>(), vec!["db", "web"]);
    assert!(group_details_healthz(&state, "nope").is_none());
}

#[test]
fn html_helpers() {
    assert_eq!(html_escape("<a href=\"x\">Tom & 'Jerry'</a>"), "&lt;a href=&quot;x&quot;&gt;Tom &amp; &#39;Jerry&#39;&lt;/a&gt;");
    assert_eq!(html_escape("plain"), "plain");
    assert_eq!(status_str(CheckStatus::Up), "up");
    assert_eq!(status_str(CheckStatus::Warn), "warn");
    assert_eq!(status_str(CheckStatus::Down), "down");
    assert_eq!(error_to_popover_html("   "), "");
    assert_eq!(error_to_popover_html("line1\r\nline2\n<b>"), "<div class='hc-popover-lines'>line1<br>line2<br>&lt;b&gt;</div>");
    let mut r = result("x", CheckStatus::Up, true, None);
    assert_eq!(labels_to_vec(&r), Vec::<String>::new());
    assert_eq!(labels_to_popover_html(&r), "");
    r.labels.insert("team".to_string(), "a&b".to_string());
    r.labels.insert("env".to_string(), "prod".to_string());
    r.labels.insert("blank".to_string(), "  ".to_string());
    assert_eq!(labels_to_vec(&r), vec!["env=prod", "team=a&b"]);
    assert_eq!(
        labels_to_popover_html(&r),
        "<div class='hc-popover-lines'><div>- env=prod</div><div>- team=a&amp;b</div></div>"
    );
}

#[test]
fn ui_rows_and_snapshots() {
    let r = result("db", CheckStatus::Down, true, Some("x<y"));
    let row = check_row(&r);
    assert_eq!(row.status, "down");
    assert_eq!(row.last_run, "1970-01-01T00:01:00Z");
    assert_eq!(row.error, "x<y");
    assert_eq!(row.error_html, "<div class='hc-popover-lines'>x&lt;y</div>");
    let snap = snapshot_check(&r);
    assert_eq!(snap.last_run.as_deref(), Some("1970-01-01T00:01:00Z"));
    assert_eq!(snap.error, "x<y");
    let mut pending = result("p", CheckStatus::Warn, true, None);
    pending.last_run = None;
    assert_eq!(check_row(&pending).last_run, "-");
    assert_eq!(snapshot_check(&pending).last_run, None);
}

#[test]
fn ui_model_for_all_checks_and_for_a_group() {
    let state = running_state();
    let m = build_ui_model(&state, None, "now".to_string()).expect("global view");
    assert!(!m.aggregate_ok);
    assert_eq!(m.now, "now");
    assert_eq!(m.active_group, "");
    assert_eq!(m.active_scope_label, "All checks");
    assert_eq!(m.scope_health_href, "/healthz/aggregate");
    assert_eq!(m.snapshot_href, "/ui/api/snapshot");
    assert!(!m.has_profile_testing);
    assert_eq!(m.summary_total, 3);
    assert_eq!(m.checks.iter().map(|c| c.name.as_str()).collect::<Vec<_>>(), vec!["db", "queue", "web"]);
    assert_eq!(m.snapshot_checks.len(), 3);

    let g = build_ui_model(&state, Some("  edge ".to_string()), "t".to_string()).expect("group view");
    assert_eq!(g.active_group, "edge");
    assert_eq!(g.active_scope_label, "Group: edge");
    assert_eq!(g.details_href, "/groups/edge/healthz/details");
    assert_eq!(g.snapshot_href, "/ui/api/snapshot?group=edge");
    assert_eq!(g.scope_default_profile, "lb");
    assert!(g.has_profile_testing);
    assert_eq!(g.summary_total, 2);

    let blank = build_ui_model(&state, Some("   ".to_string()), "t".to_string()).expect("blank means all");
    assert_eq!(blank.active_scope_label, "All checks");
    assert!(build_ui_model(&state, Some("nope".to_string()), "t".to_string()).is_none());
}

#[test]
fn select_options() {
    let state = running_state();
    let opts = build_group_options(&state, "edge");
    assert_eq!(opts.len(), 4);
    assert_eq!(opts[0].value, "");
    assert_eq!(opts[0].label, "All checks (3)");
    assert!(!opts[0].selected);
    assert_eq!(
        opts.iter().map(|o| o.label.as_str()).collect::<Vec<_>>(),
        vec!["All checks (3)", "core (2)", "edge (2)", "spare (0)"]
    );
    let selected: Vec<&str> = opts.iter().filter(|o| o.selected).map(|o| o.value.as_str()).collect();
    assert_eq!(selected, vec!["edge"]);
    let profiles = build_profile_options(&state, "edge", "lb");
    assert_eq!(profiles.iter().map(|o| o.value.as_str()).collect::<Vec<_>>(), vec!["__default__", "json", "lb"]);
    assert_eq!(profiles[0].label, "default endpoint (lb)");
    assert!(profiles[0].selected && !profiles[1].selected);
    assert!(build_group_options(&state, "")[0].selected);
    let r = refresh_settings(&state);
    assert_eq!(r.text, "1m 30s");
    assert_eq!(r.secs, 90);
}

#[test]
fn cli_selection_and_messages() {
    let cfg = config();
    assert_eq!(select_checks(&cfg, Some("db"), None).ok(), Some(vec![1]));
    assert_eq!(select_checks(&cfg, None, Some("core")).ok(), Some(vec![1, 2]));
    assert_eq!(select_checks(&cfg, None, None).ok(), Some(vec![0, 1, 2]));
    let e = select_checks(&cfg, Some("nope"), Some("core")).err().unwrap();
    assert!(matches!(e, SelectError::UnknownCheck(_)));
    assert_eq!(e.message(), "unknown check 'nope'");
    let e = select_checks(&cfg, None, Some("nope")).err().unwrap();
    assert_eq!(e.message(), "unknown group 'nope'");
    // A group that a check lists but the configuration does not define is unknown.
    let mut odd = config();
    odd.checks.push(check("stray", true, &["ghost"]));
    let e = select_checks(&odd, None, Some("ghost")).err().unwrap();
    assert_eq!(e.message(), "unknown group 'ghost'");
    let e = select_checks(&cfg, None, Some("spare")).err().unwrap();
    assert_eq!(e.message(), "group 'spare' does not contain any checks");
}

#[test]
fn cli_text_output() {
    assert_eq!(ui_url_from_bind("example.com:80").as_deref(), Some("http://example.com:80/ui"));
    assert_eq!(ui_url_from_bind("::1:8080").as_deref(), Some("http://::1:8080/ui"));
    assert_eq!(ui_url_from_bind("8080").as_deref(), Some("http://localhost:8080/ui"));
    assert_eq!(status_text(CheckStatus::Warn), "WARN");
    assert_eq!(aggregate_text(true), "OK");
    assert_eq!(aggregate_text(false), "FAILED");
    assert_eq!(exit_code(true), 0);
    assert_eq!(exit_code(false), 1);
    let s = AggregateSummary { total: 3, up: 1, warn: 1, down: 1, critical_down: 1 };
    assert_eq!(summary_text(&s), "summary: total=3, up=1, warn=1, down=1, critical_down=1");
    let problems = vec![result("db", CheckStatus::Down, true, Some("refused")), result("q", CheckStatus::Warn, false, None)];
    assert_eq!(problem_lines("failed", &problems), vec!["failed:", "  - db: refused", "  - q"]);
    assert!(problem_lines("warn", &vec![]).is_empty());
    let r = result("db", CheckStatus::Down, true, Some("refused"));
    assert!(single_check_failed(&r));
    assert!(!single_check_failed(&result("q", CheckStatus::Down, false, None)));
    assert_eq!(
        single_check_lines(&r),
        vec!["check: db", "status: DOWN", "critical: true", "duration: 1s 500ms", "error: refused"]
    );
    let mut up = result("web", CheckStatus::Up, false, None);
    up.duration = None;
    assert_eq!(single_check_lines(&up), vec!["check: web", "status: UP", "critical: false", "duration: -"]);
}

#[test]
fn metric_layout_and_samples() {
    let mut global = StrMap::new();
    global.insert("Env".to_string(), "prod".to_string());
    let mut a = check("api", true, &[]);
    a.static_labels.insert("team".to_string(), "web".to_string());
    a.static_labels.insert("env".to_string(), "stage".to_string());
    let b = check("db", true, &[]);
    let cfg = MetricsConfig { namespace: Some("Acme".to_string()), name: None, static_labels: Some(global) };
    let layout = metric_layout(&cfg, &vec![a, b]);
    assert_eq!(layout.up_name, "acme_health_up");
    assert_eq!(layout.duration_name, "acme_health_duration_seconds");
    assert_eq!(layout.last_run_name, "acme_health_last_run_timestamp");
    assert_eq!(layout.extra_label_keys, vec!["env", "team"]);
    assert_eq!(layout.label_names, vec!["check", "env", "team"]);

    let mut r1 = result("api", CheckStatus::Warn, true, None);
    r1.labels.insert("team".to_string(), "web".to_string());
    let mut r2 = result("db", CheckStatus::Down, true, None);
    r2.last_run = Some(WallTime { secs: 5, nanos: 0, before_epoch: true });
    r2.duration = None;
    let samples = metric_samples(&layout, &vec![r1, r2]);
    assert_eq!(samples.len(), 2);
    assert_eq!(samples[0].values, vec!["api", "", "web"]);
    assert!(samples[0].up);
    assert_eq!(samples[0].last_run_secs, Some(60));
    assert_eq!(samples[0].duration, Some(Duration::from_millis(1500)));
    assert!(!samples[1].up);
    assert_eq!(samples[1].last_run_secs, None);
    assert_eq!(samples[1].duration, None);

    let plain = metric_layout(&MetricsConfig { namespace: None, name: Some("Svc Health".to_string()), static_labels: None }, &vec![]);
    assert_eq!(plain.up_name, "svc_health_up");
    assert_eq!(plain.label_names, vec!["check"]);
}

fn event(old: CheckStatus, new: CheckStatus) -> StatusChangeEvent {
    StatusChangeEvent {
        event: NotificationEventType::StatusChange,
        check_name: "db".to_string(),
        critical: true,
        old_status: old,
        new_status: new,
        timestamp: "-".to_string(),
        error: None,
        groups: vec![],
    }
}

#[test]
fn webhook_subscriptions() {
    let cfg = WebhookNotificationConfig {
        url: "http://hook".to_string(),
        timeout: Duration::from_secs(3),
        on: vec![WebhookNotificationEvent::Down, WebhookNotificationEvent::Recovery],
    };
    assert!(should_send(&cfg, &event(CheckStatus::Up, CheckStatus::Down)));
    assert!(!should_send(&cfg, &event(CheckStatus::Up, CheckStatus::Warn)));
    assert!(should_send(&cfg, &event(CheckStatus::Warn, CheckStatus::Up)));
    let none = WebhookNotificationConfig { url: String::new(), timeout: Duration::ZERO, on: vec![] };
    assert!(!should_send(&none, &event(CheckStatus::Up, CheckStatus::Down)));
    let warn_only = WebhookNotificationConfig { on: vec![WebhookNotificationEvent::Warn], ..none };
    assert!(should_send(&warn_only, &event(CheckStatus::Down, CheckStatus::Warn)));
}

#[test]
fn group_level_metrics() {
    assert_eq!(GROUP_UP_METRIC, "healthz_group_up");
    assert_eq!(GROUP_TOTAL_METRIC, "healthz_group_checks_total");
    assert_eq!(GROUP_DOWN_METRIC, "healthz_group_checks_down");
    assert_eq!(GROUP_WARN_METRIC, "healthz_group_checks_warn");
    let mut state = running_state();
    let _ = state.update(result("queue", CheckStatus::Down, false, Some("slow")));
    let samples = group_metric_samples(&state);
    let rows: Vec<(&str, bool, usize, usize, usize)> =
        samples.iter().map(|s| (s.group.as_str(), s.up, s.total, s.down, s.warn)).collect();
    assert_eq!(rows, vec![("core", false, 2, 2, 0), ("edge", false, 2, 1, 0), ("spare", true, 0, 0, 0)]);
}

use std::time::Duration;

use healthz_aggregator::checks::{
    build_connect_string, cert_remaining_seconds, check_expectations, check_http_body, check_http_json,
    check_http_json_body, file_check, FileCheckError,
    check_leaf_certificate, check_status, file_json_mode, file_needs_content, file_value, http_needs_body,
    json_path_value, pattern_verdict, postgres_connection, sni_name, str_contains, tcp_address, tls_target, url_target,
    CertError,
    ConnectStringError, ExpectationError, HttpCheckError, TlsTargetError,
};
use healthz_aggregator::config::{CheckConfig, CheckSpec, DebouncePolicyConfig};
use healthz_aggregator::jsonpath::{lookup, value_to_string, JsonDoc, JsonNode};
use healthz_aggregator::scheduler::{check_timeout, result_from_outcome, run_timeout, timeout_message};
use healthz_aggregator::state::{CheckStatus, WallTime};
use healthz_aggregator::strmap::StrMap;

fn node(text: &str) -> JsonNode {
    JsonNode { text: text.to_string(), string: None, items: vec![], members: vec![] }
}

fn string_node(s: &str) -> JsonNode {
    JsonNode { text: format!("\"{}\"", s), string: Some(s.to_string()), items: vec![], members: vec![] }
}

/// `{"status":"ok","items":[1,{"name":"x"}],"n":null}`
fn sample_doc() -> JsonDoc {
    let mut root = node("{\"items\":[1,{\"name\":\"x\"}],\"n\":null,\"status\":\"ok\"}");
    root.members = vec![("status".to_string(), 1), ("items".to_string(), 2), ("n".to_string(), 5)];
    let mut items = node("[1,{\"name\":\"x\"}]");
    items.items = vec![3, 4];
    let mut inner = node("{\"name\":\"x\"}");
    inner.members = vec![("name".to_string(), 6)];
    JsonDoc {
        nodes: vec![root, string_node("ok"), items, node("1"), inner, node("null"), string_node("x")],
        root: 0,
    }
}

#[test]
fn json_paths_select_members_and_elements() {
    let doc = sample_doc();
    assert!(doc.check_wf());
    assert_eq!(lookup(&doc, "$"), Some(0));
    assert_eq!(lookup(&doc, ""), Some(0));
    assert_eq!(lookup(&doc, "$.status"), Some(1));
    assert_eq!(lookup(&doc, ".status"), Some(1));
    assert_eq!(lookup(&doc, "  $.status  "), Some(1));
    assert_eq!(lookup(&doc, "$.items[1].name"), Some(6));
    assert_eq!(lookup(&doc, "$.items[0]"), Some(3));
    assert_eq!(lookup(&doc, "$.items[5]"), None);
    assert_eq!(lookup(&doc, "$.status[0]"), None);
    assert_eq!(lookup(&doc, "$.items[x]"), None);
    assert_eq!(lookup(&doc, "$.items[1]name"), None);
    assert_eq!(lookup(&doc, "$.missing"), None);
    assert_eq!(lookup(&doc, "$.items.name"), None);
}

#[test]
fn json_values_compare_as_text() {
    let doc = sample_doc();
    assert_eq!(value_to_string(&doc, 1), "ok");
    assert_eq!(value_to_string(&doc, 3), "1");
    assert_eq!(value_to_string(&doc, 5), "null");
    assert_eq!(value_to_string(&doc, 4), "{\"name\":\"x\"}");
    assert_eq!(json_path_value(&doc, "$.items[1].name").as_deref(), Some("x"));
    assert_eq!(json_path_value(&doc, "$.nope"), None);
}

#[test]
fn ill_formed_documents_are_detected() {
    let mut doc = sample_doc();
    doc.nodes[2].items = vec![3, 99];
    assert!(!doc.check_wf());
    let mut doc = sample_doc();
    doc.root = 7;
    assert!(!doc.check_wf());
}

#[test]
fn expectations_are_tried_in_order() {
    assert!(check_expectations("hello world", Some("hello world"), Some("lo w"), Some("^h.*d$")).is_ok());
    assert!(matches!(
        check_expectations("hello", Some("bye"), Some("zz"), None),
        Err(ExpectationError::Mismatch { ref got, ref expected }) if got == "hello" && expected == "bye"
    ));
    assert!(matches!(
        check_expectations("hello", None, Some("zz"), Some("[")),
        Err(ExpectationError::MissingSubstring { ref needle, .. }) if needle == "zz"
    ));
    assert!(matches!(
        check_expectations("hello", None, None, Some("[")),
        Err(ExpectationError::InvalidRegex { ref pattern }) if pattern == "["
    ));
    assert!(matches!(
        check_expectations("hello", None, None, Some("^x")),
        Err(ExpectationError::NoMatch { ref pattern, .. }) if pattern == "^x"
    ));
    assert!(check_expectations("anything", None, None, None).is_ok());
}

#[test]
fn substring_search() {
    assert!(str_contains("abcdef", "cde"));
    assert!(str_contains("abc", ""));
    assert!(!str_contains("abc", "abcd"));
    assert!(!str_contains("abc", "ac"));
}

#[test]
fn http_rules() {
    assert!(check_status(None, 500).is_ok());
    assert!(check_status(Some(200), 200).is_ok());
    assert!(matches!(
        check_status(Some(200), 503),
        Err(HttpCheckError::UnexpectedStatus { actual: 503, expected: 200 })
    ));
    assert!(!http_needs_body(None, None));
    assert!(http_needs_body(Some("ok"), None));
    assert!(http_needs_body(None, Some("ok")));
    assert!(check_http_body("status: ok", Some("ok"), Some("^status")).is_ok());
    assert!(matches!(check_http_body("status: ok", Some("fail"), None), Err(ExpectationError::MissingSubstring { .. })));
    assert!(matches!(check_http_body("status: ok", None, Some("^ok")), Err(ExpectationError::NoMatch { .. })));
}

#[test]
fn http_json_rules() {
    let doc = sample_doc();
    assert!(check_http_json(&doc, None, Some("whatever"), None).is_ok());
    assert!(check_http_json(&doc, Some("$.status"), Some("ok"), Some("^o")).is_ok());
    assert!(matches!(check_http_json(&doc, Some("$.nope"), None, None), Err(HttpCheckError::JsonPathNotFound)));
    assert!(matches!(
        check_http_json(&doc, Some("$.status"), Some("fail"), None),
        Err(HttpCheckError::Body(ExpectationError::Mismatch { .. }))
    ));
    assert!(matches!(
        check_http_json(&doc, Some("$.items[0]"), None, Some("^2")),
        Err(HttpCheckError::Body(ExpectationError::NoMatch { .. }))
    ));
}

#[test]
fn file_rules() {
    assert!(!file_needs_content(None, None, None, None, None));
    assert!(!file_needs_content(Some("text"), None, None, None, None));
    assert!(file_needs_content(Some("json"), None, None, None, None));
    assert!(file_needs_content(None, None, None, Some("x"), None));
    assert!(file_json_mode(Some("json"), None));
    assert!(file_json_mode(None, Some("$.a")));
    assert!(!file_json_mode(Some("yaml"), None));
    let doc = sample_doc();
    assert_eq!(file_value(None, "plain text", Some("$.a")).as_deref(), Some("plain text"));
    assert_eq!(file_value(Some(&doc), "ignored", Some("$.status")).as_deref(), Some("ok"));
    assert_eq!(file_value(Some(&doc), "ignored", Some("$.none")), None);
    assert_eq!(
        file_value(Some(&doc), "ignored", None).as_deref(),
        Some("{\"items\":[1,{\"name\":\"x\"}],\"n\":null,\"status\":\"ok\"}")
    );
}

#[test]
fn oracle_connect_strings() {
    assert_eq!(build_connect_string(Some("db/xe"), Some("h"), None, Some("s"), None).unwrap(), "db/xe");
    assert_eq!(build_connect_string(None, Some("db"), None, Some("ORCL"), None).unwrap(), "db:1521/ORCL");
    assert_eq!(build_connect_string(None, Some("db"), Some(1600), None, Some("XE")).unwrap(), "db:1600:XE");
    assert_eq!(build_connect_string(None, Some("db"), Some(1), Some("svc"), Some("XE")).unwrap(), "db:1/svc");
    assert_eq!(build_connect_string(None, None, None, Some("svc"), None), Err(ConnectStringError::MissingHost));
    assert_eq!(build_connect_string(None, Some("db"), None, None, None), Err(ConnectStringError::MissingServiceOrSid));
}

#[test]
fn connection_targets() {
    assert_eq!(tcp_address("db", 5432), "db:5432");
    assert_eq!(tcp_address("::1", 0), "::1:0");
    assert_eq!(sni_name(Some("api.example.com"), "10.0.0.1"), "api.example.com");
    assert_eq!(sni_name(None, "10.0.0.1"), "10.0.0.1");
    assert_eq!(postgres_connection(None, None, None), (5432, false, true));
    assert_eq!(postgres_connection(Some(6432), Some(true), Some(true)), (6432, true, false));
}

#[test]
fn tls_targets_from_url_or_host() {
    assert_eq!(tls_target(None, None, Some("https://example.com:8443/x")), Ok(("example.com".to_string(), 8443)));
    assert_eq!(tls_target(Some("ignored"), Some(1), Some("https://example.com")), Ok(("example.com".to_string(), 443)));
    assert_eq!(tls_target(None, None, Some("http://example.com/")), Ok(("example.com".to_string(), 80)));
    assert_eq!(tls_target(None, None, Some("foo://example.com/")), Ok(("example.com".to_string(), 443)));
    assert_eq!(tls_target(None, None, Some("not a url")), Err(TlsTargetError::InvalidUrl));
    assert_eq!(tls_target(None, None, Some("data:text/plain,hi")), Err(TlsTargetError::UrlWithoutHost));
    assert_eq!(tls_target(Some("h"), None, None), Ok(("h".to_string(), 443)));
    assert_eq!(tls_target(Some("h"), Some(993), None), Ok(("h".to_string(), 993)));
    assert_eq!(tls_target(None, Some(993), None), Err(TlsTargetError::MissingHost));
}

#[test]
fn certificate_lifetime_in_whole_seconds() {
    assert_eq!(cert_remaining_seconds((100, 0), (50, 0)), Ok(50));
    assert_eq!(cert_remaining_seconds((100, 0), (99, 500)), Ok(0));
    assert_eq!(cert_remaining_seconds((100, 0), (40, 1)), Ok(59));
    assert_eq!(cert_remaining_seconds((100, 5), (100, 0)), Ok(0));
    assert_eq!(cert_remaining_seconds((100, 0), (100, 0)), Err(CertError::Expired { not_after_secs: 100, not_after_nanos: 0 }));
    assert_eq!(cert_remaining_seconds((100, 0), (100, 1)), Err(CertError::Expired { not_after_secs: 100, not_after_nanos: 0 }));
    assert_eq!(cert_remaining_seconds((-5, 7), (10, 0)), Err(CertError::Expired { not_after_secs: -5, not_after_nanos: 7 }));
    assert_eq!(cert_remaining_seconds((i64::MAX, 0), (i64::MIN, 0)), Ok(i64::MAX as i128 - i64::MIN as i128));
}

/// A self-signed certificate whose validity ends at 2019-11-13T02:54:40Z.
const CERT_DER: [u8; 341] = [
    48, 130, 1, 81, 48, 129, 216, 160, 3, 2, 1, 2, 2, 9, 0, 181, 113, 146, 40, 76, 235, 77, 30, 48,
    10, 6, 8, 42, 134, 72, 206, 61, 4, 3, 2, 48, 16, 49, 14, 48, 12, 6, 3, 85, 4, 3, 12, 5, 98, 101,
    110, 110, 111, 48, 30, 23, 13, 49, 56, 49, 49, 49, 51, 48, 50, 53, 52, 52, 48, 90, 23, 13, 49,
    57, 49, 49, 49, 51, 48, 50, 53, 52, 52, 48, 90, 48, 16, 49, 14, 48, 12, 6, 3, 85, 4, 3, 12, 5,
    98, 101, 110, 110, 111, 48, 118, 48, 16, 6, 7, 42, 134, 72, 206, 61, 2, 1, 6, 5, 43, 129, 4, 0,
    34, 3, 98, 0, 4, 56, 107, 28, 181, 83, 48, 112, 187, 25, 60, 129, 252, 195, 115, 181, 58, 22,
    178, 205, 179, 150, 107, 209, 235, 101, 245, 165, 6, 129, 55, 167, 216, 132, 18, 68, 213, 118,
    26, 209, 93, 130, 213, 241, 134, 94, 63, 118, 49, 233, 220, 58, 213, 242, 125, 133, 113, 159,
    224, 216, 211, 184, 50, 79, 254, 245, 29, 13, 118, 76, 147, 158, 247, 76, 48, 143, 45, 191, 232,
    221, 86, 214, 51, 175, 228, 120, 233, 133, 84, 252, 37, 9, 85, 54, 160, 2, 248, 48, 10, 6, 8,
    42, 134, 72, 206, 61, 4, 3, 2, 3, 104, 0, 48, 101, 2, 48, 31, 205, 45, 109, 153, 159, 134, 72,
    6, 151, 174, 195, 220, 124, 7, 117, 3, 220, 159, 89, 91, 65, 242, 213, 177, 20, 211, 104, 218,
    62, 255, 112, 189, 233, 185, 253, 175, 66, 121, 112, 87, 253, 1, 161, 150, 117, 43, 130, 2, 49,
    0, 218, 19, 65, 222, 154, 6, 41, 233, 19, 208, 205, 230, 253, 233, 173, 160, 142, 86, 132, 111,
    3, 114, 212, 31, 14, 239, 135, 196, 219, 133, 145, 94, 35, 148, 155, 135, 165, 159, 220, 6, 67,
    114, 53, 137, 94, 141, 181, 149,
];

#[test]
fn leaf_certificate_expiry() {
    let not_after: i64 = 1573613680;
    let life = check_leaf_certificate(&CERT_DER, (not_after - 100, 0)).expect("still valid");
    assert_eq!((life.not_after_secs, life.not_after_nanos, life.remaining_secs), (not_after, 0, 100));
    assert_eq!(check_leaf_certificate(&CERT_DER, (not_after - 100, 1)).map(|l| l.remaining_secs), Ok(99));
    assert_eq!(
        check_leaf_certificate(&CERT_DER, (not_after, 0)),
        Err(CertError::Expired { not_after_secs: not_after, not_after_nanos: 0 })
    );
    assert_eq!(check_leaf_certificate(b"not a certificate", (0, 0)), Err(CertError::Unparsable));
    assert_eq!(check_leaf_certificate(&[], (0, 0)), Err(CertError::Unparsable));
}

fn check(name: &str, critical: bool, spec: CheckSpec) -> CheckConfig {
    CheckConfig {
        name: name.to_string(),
        critical,
        static_labels: StrMap::new(),
        groups: vec![],
        debounce: DebouncePolicyConfig::default_policy(),
        spec,
    }
}

fn file_spec() -> CheckSpec {
    CheckSpec::File {
        path: "/tmp/x".to_string(),
        format: None,
        json_path: None,
        expected_value: None,
        expected_contains: None,
        expected_regex: None,
    }
}

#[test]
fn timeouts_of_runs() {
    let tcp = check("t", true, CheckSpec::Tcp { host: "h".to_string(), port: 1, timeout: Some(Duration::from_secs(2)) });
    let tcp_default = check("t", true, CheckSpec::Tcp { host: "h".to_string(), port: 1, timeout: None });
    let file = check("f", true, file_spec());
    assert_eq!(check_timeout(&tcp), Some(Duration::from_secs(2)));
    assert_eq!(check_timeout(&file), None);
    assert_eq!(run_timeout(&tcp, Some(Duration::from_secs(9))), Some(Duration::from_secs(2)));
    assert_eq!(run_timeout(&tcp_default, Some(Duration::from_secs(9))), Some(Duration::from_secs(9)));
    assert_eq!(run_timeout(&file, None), None);
    assert_eq!(timeout_message(Duration::from_secs(90)), "check timed out after 1m 30s");
    assert_eq!(timeout_message(Duration::from_millis(250)), "check timed out after 250ms");
}

#[test]
fn outcomes_become_results() {
    let at = WallTime { secs: 10, nanos: 0, before_epoch: false };
    let crit = check("db", true, file_spec());
    let soft = check("cache", false, file_spec());
    let r = result_from_outcome(&crit, StrMap::new(), None, at, Duration::from_millis(5));
    assert_eq!(r.status, CheckStatus::Up);
    assert_eq!(r.name, "db");
    assert_eq!(r.duration, Some(Duration::from_millis(5)));
    assert_eq!(r.last_run, Some(at));
    let r = result_from_outcome(&crit, StrMap::new(), Some("boom".to_string()), at, Duration::ZERO);
    assert_eq!(r.status, CheckStatus::Down);
    assert_eq!(r.error.as_deref(), Some("boom"));
    let r = result_from_outcome(&soft, StrMap::new(), Some("slow".to_string()), at, Duration::ZERO);
    assert_eq!(r.status, CheckStatus::Warn);
    assert!(!r.critical);
}

#[test]
fn verdicts_on_engine_answers() {
    assert!(pattern_verdict("abc", "^a", Some(true)).is_ok());
    assert!(matches!(
        pattern_verdict("abc", "^z", Some(false)),
        Err(ExpectationError::NoMatch { ref got, ref pattern }) if got == "abc" && pattern == "^z"
    ));
    assert!(matches!(pattern_verdict("abc", "(", None), Err(ExpectationError::InvalidRegex { ref pattern }) if pattern == "("));
    assert_eq!(url_target(Some("h".to_string()), Some(8443)), Ok(("h".to_string(), 8443)));
    assert_eq!(url_target(Some("h".to_string()), None), Ok(("h".to_string(), 443)));
    assert_eq!(url_target(None, Some(1)), Err(TlsTargetError::UrlWithoutHost));
}

#[test]
fn file_checks_on_read_content() {
    let json = "{\"status\": \"ok\", \"items\": [1, {\"name\": \"x\"}], \"n\": null}";
    assert!(file_check(json, None, Some("$.status"), Some("ok"), None, None).is_ok());
    assert!(file_check(json, None, Some("$.items[1].name"), Some("x"), Some("x"), Some("^x$")).is_ok());
    assert!(file_check(json, None, Some("$.n"), Some("null"), None, None).is_ok());
    assert!(file_check(json, None, Some("$.items[0]"), Some("1"), None, None).is_ok());
    assert!(matches!(file_check(json, None, Some("$.nope"), None, None, None), Err(FileCheckError::JsonPathNotFound)));
    assert!(matches!(
        file_check(json, None, Some("$.status"), Some("down"), None, None),
        Err(FileCheckError::Expectation(ExpectationError::Mismatch { ref got, .. })) if got == "ok"
    ));
    // Without a path the document's compact text is compared.
    assert!(file_check("{ \"a\" : [1, 2] }", Some("json"), None, Some("{\"a\":[1,2]}"), None, None).is_ok());
    assert!(matches!(file_check("not json", Some("json"), None, None, None, None), Err(FileCheckError::InvalidJson)));
    assert!(matches!(file_check("{", None, Some("$"), None, None, None), Err(FileCheckError::InvalidJson)));
    // Text mode compares the content itself, even when it is not JSON.
    assert!(file_check("plain text", Some("text"), None, None, Some("ain"), None).is_ok());
    assert!(matches!(
        file_check("plain text", None, None, None, Some("zzz"), None),
        Err(FileCheckError::Expectation(ExpectationError::MissingSubstring { .. }))
    ));
}

#[test]
fn http_json_checks_on_bodies() {
    let body = "{\"data\": {\"ready\": true, \"count\": 3}}";
    assert!(check_http_json_body(body, None, None, None).is_ok());
    assert!(check_http_json_body(body, Some("$.data.ready"), Some("true"), None).is_ok());
    assert!(check_http_json_body(body, Some(".data.count"), None, Some("^3$")).is_ok());
    assert!(matches!(check_http_json_body("<html>", None, None, None), Err(HttpCheckError::InvalidJson)));
    assert!(matches!(check_http_json_body(body, Some("$.data.missing"), None, None), Err(HttpCheckError::JsonPathNotFound)));
    assert!(matches!(
        check_http_json_body(body, Some("$.data.count"), Some("4"), None),
        Err(HttpCheckError::Body(ExpectationError::Mismatch { .. }))
    ));
}

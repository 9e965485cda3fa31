use healthz_aggregator::metrics::{namespace_prefix, sanitize_metric_name};
use healthz_aggregator::order::{insert_unique_sorted, sort_strings, sorted_unique, str_lt};
use healthz_aggregator::strmap::{str_eq, StrMap};
use healthz_aggregator::text::{char_is_whitespace, trim_str, u64_text};

#[test]
fn decimal_rendering_of_integers() {
    assert_eq!(u64_text(0), "0");
    assert_eq!(u64_text(7), "7");
    assert_eq!(u64_text(12345), "12345");
    assert_eq!(u64_text(u64::MAX), "18446744073709551615");
}

#[test]
fn trimming_removes_unicode_whitespace_at_both_ends() {
    assert_eq!(trim_str("  a b \t\n"), "a b");
    assert_eq!(trim_str("\u{3000}x\u{a0}"), "x");
    assert_eq!(trim_str("   "), "");
    assert_eq!(trim_str(""), "");
    assert!(char_is_whitespace('\u{2003}'));
    assert!(!char_is_whitespace('x'));
}

#[test]
fn metric_names_are_trimmed_lowercased_and_sanitized() {
    assert_eq!(sanitize_metric_name("  Foo-Bar "), "foo_bar");
    assert_eq!(sanitize_metric_name("ABC"), "abc");
    assert_eq!(sanitize_metric_name("HeLLo_World"), "hello_world");
    assert_eq!(sanitize_metric_name("1abc"), "_1abc");
    assert_eq!(sanitize_metric_name(""), "_");
    assert_eq!(sanitize_metric_name("   "), "_");
    assert_eq!(sanitize_metric_name("Ünïcode"), "_n_code");
    assert_eq!(sanitize_metric_name("_ok_9"), "_ok_9");
}

#[test]
fn sanitizing_is_idempotent() {
    for name in ["  Foo-Bar ", "9lives", "", "Ünïcode", "ALL_CAPS", "a.b-c", "\u{212A}elvin"] {
        let once = sanitize_metric_name(name);
        assert_eq!(sanitize_metric_name(&once), once);
        assert!(once.chars().all(|c| c.is_ascii_lowercase() || c.is_ascii_digit() || c == '_'));
    }
}

#[test]
fn namespace_prefix_ends_with_one_underscore() {
    assert_eq!(namespace_prefix(None), "");
    assert_eq!(namespace_prefix(Some("   ")), "");
    assert_eq!(namespace_prefix(Some("My App")), "my_app_");
    assert_eq!(namespace_prefix(Some("ns_")), "ns_");
    assert_eq!(namespace_prefix(Some(" 9x ")), "_9x_");
}

#[test]
fn strings_order_by_code_points() {
    assert!(str_lt("a", "b"));
    assert!(str_lt("a", "ab"));
    assert!(!str_lt("ab", "a"));
    assert!(!str_lt("a", "a"));
    assert!(str_lt("B", "a"));
    assert!(str_eq("same", "same"));
    assert!(!str_eq("same", "Same"));
}

#[test]
fn sorting_and_deduplicating_strings() {
    let v = vec!["pear".to_string(), "apple".to_string(), "fig".to_string(), "apple".to_string()];
    assert_eq!(sort_strings(&v), vec!["apple", "apple", "fig", "pear"]);
    assert_eq!(sorted_unique(&v), vec!["apple", "fig", "pear"]);
    let mut w = vec!["a".to_string(), "c".to_string()];
    insert_unique_sorted(&mut w, "b".to_string());
    insert_unique_sorted(&mut w, "c".to_string());
    insert_unique_sorted(&mut w, "d".to_string());
    assert_eq!(w, vec!["a", "b", "c", "d"]);
}

#[test]
fn string_map_keeps_one_value_per_key() {
    let mut m: StrMap<String> = StrMap::new();
    assert_eq!(m.len(), 0);
    m.insert("env".to_string(), "prod".to_string());
    m.insert("team".to_string(), "core".to_string());
    m.insert("env".to_string(), "stage".to_string());
    assert_eq!(m.len(), 2);
    assert_eq!(m.get("env").map(|s| s.as_str()), Some("stage"));
    assert_eq!(m.get("team").map(|s| s.as_str()), Some("core"));
    assert!(m.get("missing").is_none());
    assert!(m.contains_key("team"));
    assert!(!m.contains_key("Team"));
    let c = m.clone_map();
    assert_eq!(c.len(), 2);
    assert_eq!(c.get("env").map(|s| s.as_str()), Some("stage"));
}

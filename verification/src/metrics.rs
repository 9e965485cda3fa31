//! Prometheus naming: metric and label names, the namespace prefix, the
//! label layout that the check-level gauge families share, and the values of
//! the check-level and group-level gauges.

use vstd::prelude::*;
use std::time::Duration;
use crate::config::{CheckConfig, MetricsConfig};
use crate::order::{strictly_sorted, views};
use crate::state::{AppState, CheckResult, CheckResultView, CheckStatus, WallTime, aggregate_ok, in_group, result_views, summary_of};
use crate::strmap::StrMap;
use crate::text::{append_str, chars_of, is_ascii_alnum, is_ascii_alpha, lowercase, push_char, string_from, to_lowercase, trim, trim_str};

verus! {

/// The character that stands for `c` in a Prometheus name.
pub open spec fn name_char(c: char) -> char {
    if is_ascii_alnum(c) || c == '_' { c } else { '_' }
}

/// Prometheus-safe form of an already trimmed and lowercased name: every
/// character outside `[A-Za-z0-9_]` becomes `_`, an empty name becomes `_`,
/// and a name that does not start with a letter or `_` gets a leading `_`.
pub open spec fn sanitized(lowered: Seq<char>) -> Seq<char> {
    let m = lowered.map_values(|c: char| name_char(c));
    if m.len() == 0 {
        seq!['_']
    } else if !(is_ascii_alpha(m[0]) || m[0] == '_') {
        seq!['_'] + m
    } else {
        m
    }
}

/// A valid Prometheus metric or label name.
pub open spec fn valid_name(s: Seq<char>) -> bool {
    &&& s.len() > 0
    &&& is_ascii_alpha(s[0]) || s[0] == '_'
    &&& forall|i: int| 0 <= i < s.len() ==> is_ascii_alnum(#[trigger] s[i]) || s[i] == '_'
}

/// A name as sanitizing produces it: non-empty, made of `[a-z0-9_]` only,
/// and starting with a letter or `_`.
pub open spec fn sanitized_form(s: Seq<char>) -> bool {
    &&& s.len() > 0
    &&& ('a' <= s[0] && s[0] <= 'z') || s[0] == '_'
    &&& forall|i: int| 0 <= i < s.len() ==> ('a' <= #[trigger] s[i] && s[i] <= 'z') || ('0' <= s[i] && s[i] <= '9') || s[i] == '_'
}

/// The full rule: trim, lowercase, then replace and prefix.
pub open spec fn sanitized_name(name: Seq<char>) -> Seq<char> {
    sanitized(lowercase(trim(name)))
}

fn is_name_char(c: char) -> (b: bool)
    ensures
        b == (is_ascii_alnum(c) || c == '_'),
{
    ('a' <= c && c <= 'z') || ('A' <= c && c <= 'Z') || ('0' <= c && c <= '9') || c == '_'
}

/// The replacement and prefix steps of sanitizing, on a lowercased name.
pub fn sanitize_lowered(lowered: &str) -> (r: String)
    ensures
        r@ == sanitized(lowered@),
        valid_name(r@),
        (forall|i: int| 0 <= i < lowered@.len() ==> !crate::text::is_ascii_upper(#[trigger] lowered@[i])) ==> sanitized_form(r@),
        sanitized_form(lowered@) ==> r@ == lowered@,
{
    let v = chars_of(lowered);
    let n = v.len();
    let mut m: Vec<char> = Vec::new();
    let mut i: usize = 0;
    while i < n
        invariant
            n == v@.len(),
            v@ == lowered@,
            i <= n,
            m@ == v@.take(i as int).map_values(|c: char| name_char(c)),
        decreases n - i,
    {
        let c = v[i];
        let d = if is_name_char(c) { c } else { '_' };
        m.push(d);
        proof {
            assert(v@.take(i + 1).map_values(|c: char| name_char(c)) =~= v@.take(i as int).map_values(|c: char| name_char(c)).push(d));
        }
        i = i + 1;
    }
    proof {
        assert(v@.take(n as int) =~= v@);
    }
    let mut out = String::new();
    if n == 0 {
        push_char(&mut out, '_');
        proof { assert(out@ =~= seq!['_']); }
        return out;
    }
    let first = m[0];
    if !(('a' <= first && first <= 'z') || ('A' <= first && first <= 'Z') || first == '_') {
        push_char(&mut out, '_');
    }
    let body = string_from(&m, 0, n);
    append_str(&mut out, body.as_str());
    proof {
        assert(m@.subrange(0, n as int) =~= m@);
        let mm = lowered@.map_values(|c: char| name_char(c));
        assert(mm == m@);
        if sanitized_form(lowered@) {
            assert(m@ =~= lowered@);
        }
        if forall|i: int| 0 <= i < lowered@.len() ==> !crate::text::is_ascii_upper(#[trigger] lowered@[i]) {
            assert forall|i: int| 0 <= i < m@.len() implies ('a' <= #[trigger] m@[i] && m@[i] <= 'z') || ('0' <= m@[i] && m@[i] <= '9') || m@[i] == '_' by {
                assert(m@[i] == name_char(lowered@[i]));
            }
        }
        if !(is_ascii_alpha(first) || first == '_') {
            assert(out@ =~= seq!['_'] + m@);
        } else {
            assert(out@ =~= m@);
        }
        assert forall|j: int| 0 <= j < out@.len() implies is_ascii_alnum(#[trigger] out@[j]) || out@[j] == '_' by {
            if !(is_ascii_alpha(first) || first == '_') && j > 0 {
                assert(out@[j] == m@[j - 1]);
            }
        }
    }
    out
}

/// Prometheus-safe metric name: trimmed, lowercased, then sanitized.
pub fn sanitize_metric_name(name: &str) -> (r: String)
    ensures
        r@ == sanitized_name(name@),
        valid_name(r@),
        sanitized_form(r@),
        sanitized_form(name@) ==> r@ == name@,
{
    let t = trim_str(name);
    proof {
        if sanitized_form(name@) {
            crate::text::lemma_trim_without_ws(name@);
        }
    }
    let l = to_lowercase(t.as_str());
    sanitize_lowered(l.as_str())
}

/// Prometheus-safe label name (the same rule as metric names).
pub fn sanitize_label_name(name: &str) -> (r: String)
    ensures
        r@ == sanitized_name(name@),
        valid_name(r@),
        sanitized_form(r@),
        sanitized_form(name@) ==> r@ == name@,
{
    sanitize_metric_name(name)
}

/// The namespace prefix of metric names: empty without a (non-blank)
/// namespace, else the sanitized namespace ending in exactly one added `_`
/// unless it already ends in `_`.
pub open spec fn namespace_prefix_spec(ns: Option<Seq<char>>) -> Seq<char> {
    match ns {
        None => Seq::empty(),
        Some(s) => {
            let t = trim(s);
            if t.len() == 0 {
                Seq::empty()
            } else {
                let x = sanitized_name(t);
                if x.last() == '_' { x } else { x.push('_') }
            }
        },
    }
}

/// The prefix that goes before every metric name.
pub fn namespace_prefix(ns: Option<&str>) -> (r: String)
    ensures
        r@ == namespace_prefix_spec(match ns { Some(s) => Some(s@), None => None }),
{
    match ns {
        None => String::new(),
        Some(s) => {
            let t = trim_str(s);
            if t.unicode_len() == 0 {
                return String::new();
            }
            let mut x = sanitize_metric_name(t.as_str());
            let k = x.as_str().unicode_len();
            if x.as_str().get_char(k - 1) == '_' {
                x
            } else {
                push_char(&mut x, '_');
                x
            }
        },
    }
}


/// The label keys of a map, sanitized.
pub open spec fn sanitized_keys(m: StrMap<String>) -> Set<Seq<char>> {
    Set::new(|k: Seq<char>| exists|i: int| 0 <= i < m.entries().len() && #[trigger] sanitized_name(m.entries()[i].0@) == k)
}

/// Every label key that some metric carries besides `check`: the sanitized
/// keys of the global static labels and of every check's labels.
pub open spec fn label_key_union(cfg: MetricsConfig, checks: Seq<CheckConfig>) -> Set<Seq<char>> {
    Set::new(|k: Seq<char>|
        (cfg.static_labels matches Some(sl) && sanitized_keys(sl).contains(k))
        || exists|j: int| 0 <= j < checks.len() && sanitized_keys(#[trigger] checks[j].static_labels).contains(k))
}

/// The names and label layout of the three gauge families.
pub struct MetricLayout {
    pub up_name: String,
    pub duration_name: String,
    pub last_run_name: String,
    /// `check` followed by `extra_label_keys`.
    pub label_names: Vec<String>,
    /// The extra label keys, sorted.
    pub extra_label_keys: Vec<String>,
}

/// The metric base name: the namespace prefix and the sanitized name
/// (`health` by default).
pub open spec fn metric_base(cfg: MetricsConfig) -> Seq<char> {
    namespace_prefix_spec(match cfg.namespace { Some(n) => Some(n@), None => None })
        + sanitized_name(match cfg.name { Some(n) => n@, None => "health"@ })
}

fn add_sanitized_keys(keys: &mut Vec<String>, m: &StrMap<String>)
    requires
        strictly_sorted(views(old(keys)@)),
    ensures
        strictly_sorted(views(final(keys)@)),
        views(final(keys)@).to_set() == views(old(keys)@).to_set().union(sanitized_keys(*m)),
{
    let n = m.len();
    let mut i: usize = 0;
    let ghost start = views(keys@).to_set();
    proof {
        assert(views(keys@).to_set() =~= start.union(Set::new(|k: Seq<char>| exists|q: int| 0 <= q < 0 && #[trigger] sanitized_name(m.entries()[q].0@) == k)));
    }
    while i < n
        invariant
            n == m.entries().len(),
            i <= n,
            strictly_sorted(views(keys@)),
            views(keys@).to_set() == start.union(Set::new(|k: Seq<char>| exists|q: int| 0 <= q < i && #[trigger] sanitized_name(m.entries()[q].0@) == k)),
        decreases n - i,
    {
        let k = sanitize_label_name(m.key_at(i).as_str());
        let ghost before = views(keys@).to_set();
        crate::order::insert_unique_sorted(keys, k);
        proof {
            assert(views(keys@).to_set() =~= start.union(Set::new(|kk: Seq<char>| exists|q: int| 0 <= q < i + 1 && #[trigger] sanitized_name(m.entries()[q].0@) == kk))) by {
                assert forall|kk: Seq<char>| views(keys@).to_set().contains(kk) <==> start.union(Set::new(|kk: Seq<char>| exists|q: int| 0 <= q < i + 1 && #[trigger] sanitized_name(m.entries()[q].0@) == kk)).contains(kk) by {
                    if kk == k@ {
                        assert(sanitized_name(m.entries()[i as int].0@) == kk);
                    }
                    if exists|q: int| 0 <= q < i + 1 && #[trigger] sanitized_name(m.entries()[q].0@) == kk {
                        let q = choose|q: int| 0 <= q < i + 1 && #[trigger] sanitized_name(m.entries()[q].0@) == kk;
                        if q < i {
                            assert(exists|q2: int| 0 <= q2 < i && #[trigger] sanitized_name(m.entries()[q2].0@) == kk);
                        }
                    }
                }
            }
        }
        i = i + 1;
    }
    proof {
        assert(views(keys@).to_set() =~= start.union(sanitized_keys(*m)));
    }
}

/// The layout of the exported metrics (see `metric_base`, `label_key_union`).
pub fn metric_layout(cfg: &MetricsConfig, checks: &Vec<CheckConfig>) -> (r: MetricLayout)
    ensures
        r.up_name@ == metric_base(*cfg) + "_up"@,
        r.duration_name@ == metric_base(*cfg) + "_duration_seconds"@,
        r.last_run_name@ == metric_base(*cfg) + "_last_run_timestamp"@,
        strictly_sorted(views(r.extra_label_keys@)),
        views(r.extra_label_keys@).to_set() == label_key_union(*cfg, checks@),
        views(r.label_names@) == seq!["check"@] + views(r.extra_label_keys@),
{
    let ns = namespace_prefix(match &cfg.namespace { Some(n) => Some(n.as_str()), None => None });
    let name = match &cfg.name {
        Some(n) => sanitize_metric_name(n.as_str()),
        None => sanitize_metric_name("health"),
    };
    let mut base = ns;
    append_str(&mut base, name.as_str());
    let mut up_name = base.clone();
    append_str(&mut up_name, "_up");
    let mut duration_name = base.clone();
    append_str(&mut duration_name, "_duration_seconds");
    let mut last_run_name = base.clone();
    append_str(&mut last_run_name, "_last_run_timestamp");

    let mut keys: Vec<String> = Vec::new();
    proof { assert(views(keys@).to_set() =~= Set::<Seq<char>>::empty()); }
    match &cfg.static_labels {
        Some(sl) => add_sanitized_keys(&mut keys, sl),
        None => {},
    }
    let ghost global = match &cfg.static_labels { Some(sl) => sanitized_keys(*sl), None => Set::<Seq<char>>::empty() };
    proof { assert(views(keys@).to_set() =~= global); }
    let n = checks.len();
    let mut j: usize = 0;
    while j < n
        invariant
            n == checks@.len(),
            j <= n,
            strictly_sorted(views(keys@)),
            views(keys@).to_set() == global.union(Set::new(|k: Seq<char>| exists|q: int| 0 <= q < j && sanitized_keys(#[trigger] checks@[q].static_labels).contains(k))),
        decreases n - j,
    {
        let ghost before = views(keys@).to_set();
        add_sanitized_keys(&mut keys, &checks[j].static_labels);
        proof {
            assert(views(keys@).to_set() =~= global.union(Set::new(|k: Seq<char>| exists|q: int| 0 <= q < j + 1 && sanitized_keys(#[trigger] checks@[q].static_labels).contains(k)))) by {
                assert forall|k: Seq<char>| views(keys@).to_set().contains(k) <==> global.union(Set::new(|k: Seq<char>| exists|q: int| 0 <= q < j + 1 && sanitized_keys(#[trigger] checks@[q].static_labels).contains(k))).contains(k) by {
                    if exists|q: int| 0 <= q < j + 1 && sanitized_keys(#[trigger] checks@[q].static_labels).contains(k) {
                        let q = choose|q: int| 0 <= q < j + 1 && sanitized_keys(#[trigger] checks@[q].static_labels).contains(k);
                        if q < j {
                            assert(exists|q2: int| 0 <= q2 < j && sanitized_keys(#[trigger] checks@[q2].static_labels).contains(k));
                        }
                    }
                    if sanitized_keys(checks@[j as int].static_labels).contains(k) {
                        assert(exists|q: int| 0 <= q < j + 1 && sanitized_keys(#[trigger] checks@[q].static_labels).contains(k));
                    }
                }
            }
        }
        j = j + 1;
    }
    proof {
        assert(views(keys@).to_set() =~= label_key_union(*cfg, checks@));
    }
    let mut label_names: Vec<String> = Vec::new();
    let mut check_label = String::new();
    append_str(&mut check_label, "check");
    label_names.push(check_label);
    let m = keys.len();
    let mut i: usize = 0;
    proof { assert(views(label_names@) =~= seq!["check"@] + views(keys@).take(0)); }
    while i < m
        invariant
            m == keys@.len(),
            i <= m,
            views(label_names@) == seq!["check"@] + views(keys@).take(i as int),
        decreases m - i,
    {
        let ghost before = label_names@;
        label_names.push(keys[i].clone());
        proof {
            assert(views(label_names@) =~= views(before).push(keys@[i as int]@));
            assert(views(keys@).take(i + 1) =~= views(keys@).take(i as int).push(keys@[i as int]@));
        }
        i = i + 1;
    }
    proof {
        assert(views(keys@).take(m as int) =~= views(keys@));
        let e = Seq::<char>::empty();
    }
    MetricLayout { up_name, duration_name, last_run_name, label_names, extra_label_keys: keys }
}

/// The gauge values of one check.
pub struct MetricSample {
    /// The label values, in the layout's order: the check's name, then the
    /// check's value for each extra key (empty when it has none).
    pub values: Vec<String>,
    /// Whether the check counts as up (UP or WARN).
    pub up: bool,
    pub duration: Option<Duration>,
    /// The last run as whole seconds since the Unix epoch, when after it.
    pub last_run_secs: Option<u64>,
}

/// The sample of result `r` under the extra label keys `keys`.
pub open spec fn sample_matches(s: MetricSample, r: CheckResult, keys: Seq<Seq<char>>) -> bool {
    &&& s.values@.len() == keys.len() + 1
    &&& s.values@[0]@ == r.name@
    &&& forall|i: int| 0 <= i < keys.len() ==> (#[trigger] s.values@[i + 1])@
        == if crate::state::labels_view(r.labels).contains_key(keys[i]) { crate::state::labels_view(r.labels)[keys[i]] } else { Seq::empty() }
    &&& s.up == (r.status == CheckStatus::Up || r.status == CheckStatus::Warn)
    &&& s.duration == r.duration
    &&& s.last_run_secs == match r.last_run { Some(t) => if t.before_epoch { None } else { Some(t.secs) }, None => None }
}

/// The sample of one result.
pub fn metric_sample(layout: &MetricLayout, r: &CheckResult) -> (s: MetricSample)
    ensures
        sample_matches(s, *r, views(layout.extra_label_keys@)),
{
    let mut values: Vec<String> = Vec::new();
    values.push(r.name.clone());
    let n = layout.extra_label_keys.len();
    let mut i: usize = 0;
    while i < n
        invariant
            n == layout.extra_label_keys@.len(),
            i <= n,
            values@.len() == i + 1,
            values@[0]@ == r.name@,
            forall|q: int| 0 <= q < i ==> (#[trigger] values@[q + 1])@
                == if crate::state::labels_view(r.labels).contains_key(views(layout.extra_label_keys@)[q]) {
                    crate::state::labels_view(r.labels)[views(layout.extra_label_keys@)[q]]
                } else { Seq::empty() },
        decreases n - i,
    {
        let k = &layout.extra_label_keys[i];
        let v = match r.labels.get(k.as_str()) {
            Some(v) => v.clone(),
            None => String::new(),
        };
        let ghost before = values@;
        values.push(v);
        proof {
            assert(views(layout.extra_label_keys@)[i as int] == k@);
            assert forall|q: int| 0 <= q < i + 1 implies (#[trigger] values@[q + 1])@
                == if crate::state::labels_view(r.labels).contains_key(views(layout.extra_label_keys@)[q]) {
                    crate::state::labels_view(r.labels)[views(layout.extra_label_keys@)[q]]
                } else { Seq::empty() } by {
                if q < i {
                    assert(values@[q + 1] == before[q + 1]);
                }
            }
        }
        i = i + 1;
    }
    let last_run_secs = match r.last_run {
        Some(t) => if t.before_epoch { None } else { Some(t.secs) },
        None => None,
    };
    MetricSample {
        values,
        up: r.status == CheckStatus::Up || r.status == CheckStatus::Warn,
        duration: r.duration,
        last_run_secs,
    }
}

/// The samples of all results, in order.
pub fn metric_samples(layout: &MetricLayout, results: &Vec<CheckResult>) -> (r: Vec<MetricSample>)
    ensures
        r@.len() == results@.len(),
        forall|i: int| 0 <= i < r@.len() ==> sample_matches(#[trigger] r@[i], results@[i], views(layout.extra_label_keys@)),
{
    let n = results.len();
    let mut out: Vec<MetricSample> = Vec::new();
    let mut i: usize = 0;
    while i < n
        invariant
            n == results@.len(),
            i <= n,
            out@.len() == i,
            forall|q: int| 0 <= q < i ==> sample_matches(#[trigger] out@[q], results@[q], views(layout.extra_label_keys@)),
        decreases n - i,
    {
        out.push(metric_sample(layout, &results[i]));
        i = i + 1;
    }
    out
}

/// The gauge family telling whether a group is healthy (1) or not (0).
pub const GROUP_UP_METRIC: &'static str = "healthz_group_up";
/// The gauge family counting a group's checks.
pub const GROUP_TOTAL_METRIC: &'static str = "healthz_group_checks_total";
/// The gauge family counting a group's DOWN checks.
pub const GROUP_DOWN_METRIC: &'static str = "healthz_group_checks_down";
/// The gauge family counting a group's WARN checks.
pub const GROUP_WARN_METRIC: &'static str = "healthz_group_checks_warn";

/// The group-level gauge values of one group (label `group`).
pub struct GroupMetricSample {
    pub group: String,
    /// Whether the group's aggregate is healthy.
    pub up: bool,
    pub total: usize,
    pub down: usize,
    pub warn: usize,
}

/// `s` holds the group-level values of group `g` in `state`.
pub open spec fn group_sample_matches(state: AppState, s: GroupMetricSample) -> bool {
    let rs = state.result_list().filter(in_group(state.group_states()[s.group@]));
    &&& state.group_states().contains_key(s.group@)
    &&& s.up == aggregate_ok(rs)
    &&& s.total == summary_of(rs).total
    &&& s.down == summary_of(rs).down
    &&& s.warn == summary_of(rs).warn
}

/// The group-level samples: one per group, ordered by group name.
pub fn group_metric_samples(state: &AppState) -> (r: Vec<GroupMetricSample>)
    ensures
        strictly_sorted(Seq::new(r@.len(), |i: int| r@[i].group@)),
        Seq::new(r@.len(), |i: int| r@[i].group@).to_set() == state.group_states().dom(),
        forall|i: int| 0 <= i < r@.len() ==> group_sample_matches(*state, #[trigger] r@[i]),
{
    let names = state.group_names();
    let n = names.len();
    let mut out: Vec<GroupMetricSample> = Vec::new();
    let mut i: usize = 0;
    while i < n
        invariant
            n == names@.len(),
            i <= n,
            strictly_sorted(views(names@)),
            views(names@).to_set() == state.group_states().dom(),
            out@.len() == i,
            forall|q: int| 0 <= q < i ==> (#[trigger] out@[q]).group@ == names@[q]@,
            forall|q: int| 0 <= q < i ==> group_sample_matches(*state, #[trigger] out@[q]),
        decreases n - i,
    {
        let g = &names[i];
        proof {
            assert(views(names@)[i as int] == g@);
            assert(views(names@).to_set().contains(g@));
        }
        match state.aggregate_snapshot_for_group(g.as_str()) {
            Some((ok, summary, _, _)) => {
                out.push(GroupMetricSample {
                    group: g.clone(),
                    up: ok,
                    total: summary.total,
                    down: summary.down,
                    warn: summary.warn,
                });
            },
            None => {
                proof { assert(false); }
            },
        }
        i = i + 1;
    }
    proof {
        assert(Seq::new(out@.len(), |q: int| out@[q].group@) =~= views(names@));
    }
    out
}

/// The per-check up gauge depends on the status alone: a sample counts as up
/// exactly when its result is UP or WARN (only DOWN is down), whatever the
/// error text, and its first label value is the check's name.
pub proof fn law_up_gauge_follows_status(s: MetricSample, r: CheckResult, keys: Seq<Seq<char>>)
    requires
        sample_matches(s, r, keys),
    ensures
        s.up <==> r.status != CheckStatus::Down,
        r.status == CheckStatus::Warn ==> s.up,
        s.values@[0]@ == r.name@,
        s.values@.len() == keys.len() + 1,
{
}

} // verus!

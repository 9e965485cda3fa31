//! The in-memory state of the service: latest result and recent history per
//! check, debouncing of flapping statuses, group views and aggregation.

use vstd::prelude::*;
use std::time::Duration;
use std::time::Instant;
use crate::config::{CheckConfig, Config, DebouncePolicyConfig, ResponseProfileConfig, names, contains_name};
use crate::metrics::sanitized_name;
use crate::notifier::{NotificationEventType, StatusChangeEvent, StatusChangeEventView, change_event};
use crate::order::{insert_unique_sorted, sort_strings, sorted, strictly_sorted, views};
use crate::strmap::StrMap;
use crate::text::{append_str, decimal, push_char, u64_text};
use crate::timefmt::now_rfc3339;

verus! {

/// The status of a check.
#[derive(Debug, Clone, Copy, PartialEq, Eq, Structural)]
pub enum CheckStatus {
    Up,
    Down,
    Warn,
}

/// A point in wall-clock time, as whole seconds plus nanoseconds away from
/// the Unix epoch (after it, or before it when `before_epoch`).
#[derive(Debug, Clone, Copy, PartialEq, Eq, Structural)]
pub struct WallTime {
    pub secs: u64,
    pub nanos: u32,
    pub before_epoch: bool,
}

/// The latest known result of one check.
pub struct CheckResult {
    pub name: String,
    pub status: CheckStatus,
    pub critical: bool,
    pub last_run: Option<WallTime>,
    pub duration: Option<Duration>,
    pub error: Option<String>,
    /// Merged labels: metrics' static labels plus the check's own (the
    /// check's win); keys are sanitized to Prometheus label-name rules.
    pub labels: StrMap<String>,
}

/// A check result, by contents.
pub struct CheckResultView {
    pub name: Seq<char>,
    pub status: CheckStatus,
    pub critical: bool,
    pub last_run: Option<WallTime>,
    pub duration: Option<Duration>,
    pub error: Option<Seq<char>>,
    pub labels: Map<Seq<char>, Seq<char>>,
}

/// The contents of an optional string.
pub open spec fn opt_view(o: Option<String>) -> Option<Seq<char>> {
    match o {
        Some(s) => Some(s@),
        None => None,
    }
}

/// The contents of a string-valued map.
pub open spec fn labels_view(m: StrMap<String>) -> Map<Seq<char>, Seq<char>> {
    m@.map_values(|v: String| v@)
}

impl View for CheckResult {
    type V = CheckResultView;

    open spec fn view(&self) -> CheckResultView {
        CheckResultView {
            name: self.name@,
            status: self.status,
            critical: self.critical,
            last_run: self.last_run,
            duration: self.duration,
            error: opt_view(self.error),
            labels: labels_view(self.labels),
        }
    }
}

/// A copy of an optional string.
pub fn clone_opt_string(o: &Option<String>) -> (r: Option<String>)
    ensures
        r == *o,
{
    match o {
        Some(s) => Some(s.clone()),
        None => None,
    }
}

impl CheckResult {
    /// A copy of the result.
    pub fn duplicate(&self) -> (r: CheckResult)
        ensures
            r@ == self@,
    {
        CheckResult {
            name: self.name.clone(),
            status: self.status,
            critical: self.critical,
            last_run: self.last_run,
            duration: self.duration,
            error: clone_opt_string(&self.error),
            labels: self.labels.clone_map(),
        }
    }
}

/// One recorded result of a check: what it reported (`raw_status`) and what
/// was made of it after debouncing (`status`).
pub struct CheckHistoryEntry {
    pub raw_status: CheckStatus,
    pub status: CheckStatus,
    pub critical: bool,
    pub timestamp: WallTime,
    pub duration: Option<Duration>,
    pub error: Option<String>,
}

/// A history entry, by contents.
pub struct HistoryEntryView {
    pub raw_status: CheckStatus,
    pub status: CheckStatus,
    pub critical: bool,
    pub timestamp: WallTime,
    pub duration: Option<Duration>,
    pub error: Option<Seq<char>>,
}

impl View for CheckHistoryEntry {
    type V = HistoryEntryView;

    open spec fn view(&self) -> HistoryEntryView {
        HistoryEntryView {
            raw_status: self.raw_status,
            status: self.status,
            critical: self.critical,
            timestamp: self.timestamp,
            duration: self.duration,
            error: opt_view(self.error),
        }
    }
}

impl CheckHistoryEntry {
    /// A copy of the entry.
    pub fn duplicate(&self) -> (r: CheckHistoryEntry)
        ensures
            r@ == self@,
    {
        CheckHistoryEntry {
            raw_status: self.raw_status,
            status: self.status,
            critical: self.critical,
            timestamp: self.timestamp,
            duration: self.duration,
            error: clone_opt_string(&self.error),
        }
    }
}

/// A history by contents.
pub open spec fn history_view(h: Seq<CheckHistoryEntry>) -> Seq<HistoryEntryView> {
    h.map_values(|e: CheckHistoryEntry| e@)
}

/// How many of the latest entries of `h` have raw status `wanted`.
pub open spec fn trailing_raw(h: Seq<HistoryEntryView>, wanted: CheckStatus) -> nat
    decreases h.len(),
{
    if h.len() > 0 && h.last().raw_status == wanted {
        1 + trailing_raw(h.drop_last(), wanted)
    } else {
        0
    }
}

/// How many of the latest entries of `h` have a raw status other than UP.
pub open spec fn trailing_non_up(h: Seq<HistoryEntryView>) -> nat
    decreases h.len(),
{
    if h.len() > 0 && h.last().raw_status != CheckStatus::Up {
        1 + trailing_non_up(h.drop_last())
    } else {
        0
    }
}

proof fn lemma_trailing_bounds(h: Seq<HistoryEntryView>, wanted: CheckStatus)
    ensures
        trailing_raw(h, wanted) <= h.len(),
        trailing_non_up(h) <= h.len(),
    decreases h.len(),
{
    if h.len() > 0 {
        lemma_trailing_bounds(h.drop_last(), wanted);
    }
}

/// The number of latest history entries whose raw status is `wanted`.
pub fn consecutive_raw_matches(history: &Vec<CheckHistoryEntry>, wanted: CheckStatus) -> (n: usize)
    ensures
        n == trailing_raw(history_view(history@), wanted),
{
    let len = history.len();
    let mut i: usize = len;
    let ghost h = history_view(history@);
    proof { assert(h.take(len as int) =~= h); }
    while i > 0 && history[i - 1].raw_status == wanted
        invariant
            len == history@.len(),
            h == history_view(history@),
            i <= len,
            trailing_raw(h, wanted) == (len - i) + trailing_raw(h.take(i as int), wanted),
        decreases i,
    {
        proof {
            let t = h.take(i as int);
            assert(t.last() == history@[i - 1]@);
            assert(t.drop_last() =~= h.take(i - 1));
        }
        i = i - 1;
    }
    proof {
        if i > 0 {
            assert(h.take(i as int).last() == history@[i - 1]@);
        }
    }
    len - i
}

/// The number of latest history entries whose raw status is not UP.
pub fn consecutive_non_up(history: &Vec<CheckHistoryEntry>) -> (n: usize)
    ensures
        n == trailing_non_up(history_view(history@)),
{
    let len = history.len();
    let mut i: usize = len;
    let ghost h = history_view(history@);
    proof { assert(h.take(len as int) =~= h); }
    while i > 0 && history[i - 1].raw_status != CheckStatus::Up
        invariant
            len == history@.len(),
            h == history_view(history@),
            i <= len,
            trailing_non_up(h) == (len - i) + trailing_non_up(h.take(i as int)),
        decreases i,
    {
        proof {
            let t = h.take(i as int);
            assert(t.last() == history@[i - 1]@);
            assert(t.drop_last() =~= h.take(i - 1));
        }
        i = i - 1;
    }
    proof {
        if i > 0 {
            assert(h.take(i as int).last() == history@[i - 1]@);
        }
    }
    len - i
}

/// What is reported for a new raw result `cur`, given the previously
/// reported result, the history before `cur` and the check's policy.
///
/// An UP result after a non-UP report is held back (the previous status and
/// error stay) until it completes `recover_after` consecutive UP results; a
/// failing result after an UP report is reported as UP until it completes
/// `fail_after` consecutive non-UP results. An UP report carries no error.
pub open spec fn debounced(
    prev: Option<CheckResultView>,
    hist: Seq<HistoryEntryView>,
    policy: DebouncePolicyConfig,
    cur: CheckResultView,
) -> CheckResultView {
    let prev_up = prev matches Some(p) && p.status == CheckStatus::Up;
    if cur.status == CheckStatus::Up {
        if !prev_up && trailing_raw(hist, CheckStatus::Up) + 1 < policy.recover_after {
            match prev {
                Some(p) => CheckResultView { status: p.status, error: p.error, ..cur },
                None => cur,
            }
        } else {
            CheckResultView { error: None, ..cur }
        }
    } else {
        if prev_up && trailing_non_up(hist) + 1 < policy.fail_after {
            CheckResultView { status: CheckStatus::Up, error: None, ..cur }
        } else {
            cur
        }
    }
}

/// The reported result for `current`, after debouncing.
pub fn apply_debounce(
    previous: Option<&CheckResult>,
    history: &Vec<CheckHistoryEntry>,
    policy: &DebouncePolicyConfig,
    current: &CheckResult,
) -> (r: CheckResult)
    ensures
        r@ == debounced(
            match previous { Some(p) => Some(p@), None => None },
            history_view(history@),
            *policy,
            current@,
        ),
{
    let previous_up = match previous {
        Some(p) => p.status == CheckStatus::Up,
        None => false,
    };
    let mut effective = current.duplicate();
    proof { lemma_trailing_bounds(history_view(history@), CheckStatus::Up); }
    match current.status {
        CheckStatus::Up => {
            let run = consecutive_raw_matches(history, CheckStatus::Up);
            if !previous_up && policy.recover_after > 0 && run < policy.recover_after - 1 {
                if let Some(p) = previous {
                    effective.status = p.status;
                    effective.error = clone_opt_string(&p.error);
                }
            } else {
                effective.error = None;
            }
        },
        _ => {
            let run = consecutive_non_up(history);
            if previous_up && policy.fail_after > 0 && run < policy.fail_after - 1 {
                effective.status = CheckStatus::Up;
                effective.error = None;
            }
        },
    }
    effective
}


/// Prometheus-safe label name: trimmed, lowercased, then every character
/// outside `[A-Za-z0-9_]` replaced by `_`, with a leading `_` where the name
/// would start with anything but a letter or `_`.
pub fn sanitize_label_name(name: &str) -> (r: String)
    ensures
        r@ == sanitized_name(name@),
        crate::metrics::valid_name(r@),
        crate::metrics::sanitized_form(r@),
        crate::metrics::sanitized_form(name@) ==> r@ == name@,
{
    crate::metrics::sanitize_metric_name(name)
}

/// Labels `m` after adding the `entries` in order, each key sanitized (a
/// later entry wins over an earlier one with the same sanitized key).
pub open spec fn merge_entries(m: Map<Seq<char>, Seq<char>>, entries: Seq<(String, String)>) -> Map<Seq<char>, Seq<char>>
    decreases entries.len(),
{
    if entries.len() == 0 {
        m
    } else {
        merge_entries(m, entries.drop_last()).insert(sanitized_name(entries.last().0@), entries.last().1@)
    }
}

/// A copy of a vector of strings.
pub fn clone_strings(v: &Vec<String>) -> (r: Vec<String>)
    ensures
        r@ == v@,
{
    let n = v.len();
    let mut out: Vec<String> = Vec::new();
    let mut i: usize = 0;
    while i < n
        invariant
            n == v@.len(),
            i <= n,
            out@ == v@.take(i as int),
        decreases n - i,
    {
        out.push(v[i].clone());
        proof { assert(out@ =~= v@.take(i + 1)); }
        i = i + 1;
    }
    proof { assert(out@ =~= v@); }
    out
}

/// A copy of a history.
pub fn clone_history(h: &Vec<CheckHistoryEntry>) -> (r: Vec<CheckHistoryEntry>)
    ensures
        history_view(r@) == history_view(h@),
{
    let n = h.len();
    let mut out: Vec<CheckHistoryEntry> = Vec::new();
    let mut i: usize = 0;
    while i < n
        invariant
            n == h@.len(),
            i <= n,
            history_view(out@) == history_view(h@.take(i as int)),
        decreases n - i,
    {
        let ghost before = out@;
        let e = h[i].duplicate();
        out.push(e);
        proof {
            assert(out@ == before.push(e));
            assert(history_view(out@) =~= history_view(before).push(e@));
            assert(h@.take(i + 1) =~= h@.take(i as int).push(h@[i as int]));
            assert(history_view(h@.take(i + 1)) =~= history_view(h@.take(i as int)).push(h@[i as int]@));
        }
        i = i + 1;
    }
    proof { assert(h@.take(n as int) =~= h@); }
    out
}

/// What an application keeps of a group: its default profile, the profiles
/// it allows and the checks it holds, both as sets of names.
pub struct GroupState {
    pub default_profile: Option<String>,
    profile_names: Vec<String>,
    check_names: Vec<String>,
}

impl GroupState {
    /// The name of the group's default profile.
    pub closed spec fn default_name(&self) -> Option<Seq<char>> {
        opt_view(self.default_profile)
    }

    /// The names of the profiles the group allows.
    pub closed spec fn profile_set(&self) -> Set<Seq<char>> {
        views(self.profile_names@).to_set()
    }

    /// The names of the checks in the group.
    pub closed spec fn check_set(&self) -> Set<Seq<char>> {
        views(self.check_names@).to_set()
    }

    /// Both name lists are kept in strictly increasing order.
    pub closed spec fn wf(&self) -> bool {
        strictly_sorted(views(self.profile_names@)) && strictly_sorted(views(self.check_names@))
    }
}

/// The summary counts of an aggregate.
#[derive(Debug, Clone, Copy, PartialEq, Eq, Structural)]
pub struct AggregateSummary {
    pub total: usize,
    pub up: usize,
    pub warn: usize,
    pub down: usize,
    pub critical_down: usize,
}

/// The contents of a vector of results.
pub open spec fn result_views(v: Seq<CheckResult>) -> Seq<CheckResultView> {
    v.map_values(|r: CheckResult| r@)
}

/// A result that fails the aggregate: DOWN and critical.
pub open spec fn is_failed(r: CheckResultView) -> bool {
    r.status == CheckStatus::Down && r.critical
}

/// A result that warns: WARN, or DOWN but not critical.
pub open spec fn is_warned(r: CheckResultView) -> bool {
    r.status == CheckStatus::Warn || (r.status == CheckStatus::Down && !r.critical)
}

/// Selects the results with status `st`.
pub open spec fn status_pred(st: CheckStatus) -> spec_fn(CheckResultView) -> bool {
    |r: CheckResultView| r.status == st
}

/// Selects the failing results.
pub open spec fn failed_pred() -> spec_fn(CheckResultView) -> bool {
    |r: CheckResultView| is_failed(r)
}

/// Selects the warning results.
pub open spec fn warned_pred() -> spec_fn(CheckResultView) -> bool {
    |r: CheckResultView| is_warned(r)
}

/// The results with status `st`.
pub open spec fn with_status(s: Seq<CheckResultView>, st: CheckStatus) -> Seq<CheckResultView> {
    s.filter(status_pred(st))
}

/// The summary of `s`.
pub open spec fn summary_of(s: Seq<CheckResultView>) -> AggregateSummary {
    AggregateSummary {
        total: s.len() as usize,
        up: with_status(s, CheckStatus::Up).len() as usize,
        warn: with_status(s, CheckStatus::Warn).len() as usize,
        down: with_status(s, CheckStatus::Down).len() as usize,
        critical_down: s.filter(failed_pred()).len() as usize,
    }
}

/// Whether an aggregate with this summary is healthy: no critical check DOWN.
pub open spec fn aggregate_ok(s: Seq<CheckResultView>) -> bool {
    s.filter(failed_pred()).len() == 0
}

/// Counts and partitions results: the summary, whether no critical check is
/// DOWN, the failing results (critical DOWN) and the warning ones (WARN, or
/// DOWN but not critical), each in the order given.
pub fn aggregate_results(results: &Vec<CheckResult>) -> (r: (bool, AggregateSummary, Vec<CheckResult>, Vec<CheckResult>))
    ensures
        r.1 == summary_of(result_views(results@)),
        r.0 == aggregate_ok(result_views(results@)),
        result_views(r.2@) == result_views(results@).filter(failed_pred()),
        result_views(r.3@) == result_views(results@).filter(warned_pred()),
{
    let n = results.len();
    let ghost all = result_views(results@);
    let mut up: usize = 0;
    let mut warn: usize = 0;
    let mut down: usize = 0;
    let mut critical_down: usize = 0;
    let mut failed: Vec<CheckResult> = Vec::new();
    let mut warned: Vec<CheckResult> = Vec::new();
    let mut i: usize = 0;
    proof {
        assert(all.take(0) =~= Seq::<CheckResultView>::empty());
        assert(result_views(failed@) =~= Seq::<CheckResultView>::empty());
        assert(result_views(warned@) =~= Seq::<CheckResultView>::empty());
    }
    while i < n
        invariant
            n == results@.len(),
            all == result_views(results@),
            i <= n,
            up as int == all.take(i as int).filter(status_pred(CheckStatus::Up)).len(),
            warn as int == all.take(i as int).filter(status_pred(CheckStatus::Warn)).len(),
            down as int == all.take(i as int).filter(status_pred(CheckStatus::Down)).len(),
            critical_down as int == all.take(i as int).filter(failed_pred()).len(),
            result_views(failed@) == all.take(i as int).filter(failed_pred()),
            result_views(warned@) == all.take(i as int).filter(warned_pred()),
        decreases n - i,
    {
        let r = &results[i];
        let ghost t = all.take(i as int);
        let ghost x = r@;
        proof {
            assert(all.take(i + 1) =~= t.push(x));
            t.lemma_filter_push(x, status_pred(CheckStatus::Up));
            t.lemma_filter_push(x, status_pred(CheckStatus::Warn));
            t.lemma_filter_push(x, status_pred(CheckStatus::Down));
            t.lemma_filter_push(x, failed_pred());
            t.lemma_filter_push(x, warned_pred());
            t.lemma_filter_len(status_pred(CheckStatus::Up));
            t.lemma_filter_len(status_pred(CheckStatus::Warn));
            t.lemma_filter_len(status_pred(CheckStatus::Down));
            t.lemma_filter_len(failed_pred());
        }
        match r.status {
            CheckStatus::Up => {
                up = up + 1;
            },
            CheckStatus::Warn => {
                warn = warn + 1;
                let ghost before = warned@;
                let c = r.duplicate();
                warned.push(c);
                proof { assert(result_views(warned@) =~= result_views(before).push(x)); }
            },
            CheckStatus::Down => {
                down = down + 1;
                if r.critical {
                    critical_down = critical_down + 1;
                    let ghost before = failed@;
                    let c = r.duplicate();
                    failed.push(c);
                    proof { assert(result_views(failed@) =~= result_views(before).push(x)); }
                } else {
                    let ghost before = warned@;
                    let c = r.duplicate();
                    warned.push(c);
                    proof { assert(result_views(warned@) =~= result_views(before).push(x)); }
                }
            },
        }
        i = i + 1;
    }
    proof {
        assert(all.take(n as int) =~= all);
    }
    let summary = AggregateSummary { total: n, up, warn, down, critical_down };
    (critical_down == 0, summary, failed, warned)
}


/// `std::time::Instant`, a point on the monotonic clock.
#[verifier::external_type_specification]
#[verifier::external_body]
pub struct ExInstant(std::time::Instant);

/// `Instant::now`.
#[verifier::external_body]
fn instant_now() -> Instant {
    Instant::now()
}

/// `Instant::elapsed`: the time since `start` (nothing is known of its value).
#[verifier::external_body]
fn instant_elapsed(start: &Instant) -> Duration {
    start.elapsed()
}

/// What `format!("{:.3} s", d.as_secs_f64())` renders for `d`: its seconds
/// as a floating-point number with three decimals.
pub uninterp spec fn seconds_millis_text(d: Duration) -> Seq<char>;

/// `Duration::as_secs_f64`, rendered with three decimals and " s".
#[verifier::external_body]
fn format_seconds_millis(d: Duration) -> (r: String)
    ensures
        r@ == seconds_millis_text(d),
{
    format!("{:.3} s", d.as_secs_f64())
}

/// Two decimal digits, zero-padded.
pub open spec fn pad2(n: nat) -> Seq<char> {
    if n < 10 { seq!['0'] + decimal(n) } else { decimal(n) }
}

/// Human-friendly uptime: "7.428 s", "3m 12s", "2h 05m", "1d 4h".
pub open spec fn uptime_spec(d: Duration) -> Seq<char> {
    let secs = crate::timefmt::whole_seconds(d) as nat;
    if secs < 60 {
        seconds_millis_text(d)
    } else if secs < 3600 {
        decimal(secs / 60) + "m "@ + decimal(secs % 60) + "s"@
    } else if secs < 86400 {
        decimal(secs / 3600) + "h "@ + pad2((secs % 3600) / 60) + "m"@
    } else {
        decimal(secs / 86400) + "d "@ + decimal((secs % 86400) / 3600) + "h"@
    }
}

/// Renders an uptime of `d`.
pub fn uptime_text(d: Duration) -> (r: String)
    ensures
        r@ == uptime_spec(d),
{
    let secs = crate::timefmt::duration_as_secs(d);
    if secs < 60 {
        return format_seconds_millis(d);
    }
    let mut r = String::new();
    if secs < 3600 {
        let a = u64_text(secs / 60);
        let b = u64_text(secs % 60);
        append_str(&mut r, a.as_str());
        append_str(&mut r, "m ");
        append_str(&mut r, b.as_str());
        append_str(&mut r, "s");
    } else if secs < 86400 {
        let a = u64_text(secs / 3600);
        let m = (secs % 3600) / 60;
        let b = u64_text(m);
        append_str(&mut r, a.as_str());
        append_str(&mut r, "h ");
        if m < 10 {
            push_char(&mut r, '0');
        }
        append_str(&mut r, b.as_str());
        append_str(&mut r, "m");
        proof {
            if m < 10 {
                assert(seq!['0'] + decimal(m as nat) =~= seq!['0'].add(decimal(m as nat)));
            }
        }
    } else {
        let a = u64_text(secs / 86400);
        let b = u64_text((secs % 86400) / 3600);
        append_str(&mut r, a.as_str());
        append_str(&mut r, "d ");
        append_str(&mut r, b.as_str());
        append_str(&mut r, "h");
    }
    proof {
        let e = Seq::<char>::empty();
        assert(r@ =~= uptime_spec(d));
    }
    r
}


/// The result a check has before it first runs.
pub open spec fn initial_result(global: Map<Seq<char>, Seq<char>>, c: CheckConfig) -> CheckResultView {
    CheckResultView {
        name: c.name@,
        status: CheckStatus::Warn,
        critical: c.critical,
        last_run: None,
        duration: None,
        error: Some("not yet executed"@),
        labels: merge_entries(global, c.static_labels.entries()),
    }
}

/// The initial results of `checks`, by name (a later check wins over an
/// earlier one of the same name).
pub open spec fn initial_results(global: Map<Seq<char>, Seq<char>>, checks: Seq<CheckConfig>) -> Map<Seq<char>, CheckResultView>
    decreases checks.len(),
{
    if checks.len() == 0 {
        Map::empty()
    } else {
        initial_results(global, checks.drop_last()).insert(checks.last().name@, initial_result(global, checks.last()))
    }
}

/// The debounce policy of each check, by name.
pub open spec fn policies_of(checks: Seq<CheckConfig>) -> Map<Seq<char>, DebouncePolicyConfig>
    decreases checks.len(),
{
    if checks.len() == 0 {
        Map::empty()
    } else {
        policies_of(checks.drop_last()).insert(checks.last().name@, checks.last().debounce)
    }
}

/// The groups of each check, by name.
pub open spec fn check_groups_of(checks: Seq<CheckConfig>) -> Map<Seq<char>, Seq<Seq<char>>>
    decreases checks.len(),
{
    if checks.len() == 0 {
        Map::empty()
    } else {
        check_groups_of(checks.drop_last()).insert(checks.last().name@, names(checks.last().groups@))
    }
}

/// The names of the checks that list group `g`.
pub open spec fn checks_in_group(checks: Seq<CheckConfig>, g: Seq<char>) -> Set<Seq<char>> {
    Set::new(|n: Seq<char>| exists|i: int| 0 <= i < checks.len() && #[trigger] checks[i].name@ == n && names(checks[i].groups@).contains(g))
}

/// The global labels of a configuration, keys sanitized.
pub open spec fn global_labels_of(cfg: Config) -> Map<Seq<char>, Seq<char>> {
    match cfg.metrics {
        Some(m) => match m.static_labels {
            Some(sl) => merge_entries(Map::empty(), sl.entries()),
            None => Map::empty(),
        },
        None => Map::empty(),
    }
}

/// `g` is what the application keeps of group `name` of `cfg`.
pub open spec fn group_built(cfg: Config, name: Seq<char>, g: GroupState) -> bool {
    &&& g.wf()
    &&& g.default_name() == opt_view(cfg.groups@[name].default_profile)
    &&& g.profile_set() == names(cfg.groups@[name].profiles@).to_set()
    &&& g.check_set() == checks_in_group(cfg.checks@, name)
}

/// The application state: configuration-derived tables plus the latest
/// result and recent history of every check.
pub struct AppState {
    start: Instant,
    refresh_interval: Duration,
    history_size: usize,
    global_labels: StrMap<String>,
    checks: Vec<CheckConfig>,
    debounce_policies: StrMap<DebouncePolicyConfig>,
    check_groups: StrMap<Vec<String>>,
    groups: StrMap<GroupState>,
    response_profiles: StrMap<ResponseProfileConfig>,
    results: StrMap<CheckResult>,
    history: StrMap<Vec<CheckHistoryEntry>>,
}

impl AppState {
    /// The latest result of each check, by name.
    pub closed spec fn results_map(&self) -> Map<Seq<char>, CheckResultView> {
        self.results@.map_values(|r: CheckResult| r@)
    }

    /// The latest results in the order their checks were first stored.
    pub closed spec fn result_list(&self) -> Seq<CheckResultView> {
        self.results.entries().map_values(|e: (String, CheckResult)| e.1@)
    }

    /// The recorded history of each check that has been updated, by name.
    pub closed spec fn histories(&self) -> Map<Seq<char>, Seq<HistoryEntryView>> {
        self.history@.map_values(|h: Vec<CheckHistoryEntry>| history_view(h@))
    }

    /// The names in the history table, in the order they were first stored.
    pub closed spec fn history_names(&self) -> Seq<Seq<char>> {
        self.history.key_seq()
    }

    /// How many history entries are kept per check.
    pub closed spec fn history_limit(&self) -> nat {
        self.history_size as nat
    }

    /// The refresh interval.
    pub closed spec fn refresh(&self) -> Duration {
        self.refresh_interval
    }

    /// The configured checks.
    pub closed spec fn check_list(&self) -> Seq<CheckConfig> {
        self.checks@
    }

    /// The configured debounce policies, by check name.
    pub closed spec fn policy_map(&self) -> Map<Seq<char>, DebouncePolicyConfig> {
        self.debounce_policies@
    }

    /// The groups that each configured check lists, by check name.
    pub closed spec fn check_groups_map(&self) -> Map<Seq<char>, Seq<Seq<char>>> {
        self.check_groups@.map_values(|v: Vec<String>| names(v@))
    }

    /// The debounce policy of check `name`: its configured one, or the
    /// policy without debouncing.
    pub open spec fn policy_for(&self, name: Seq<char>) -> DebouncePolicyConfig {
        if self.policy_map().contains_key(name) {
            self.policy_map()[name]
        } else {
            DebouncePolicyConfig { fail_after: 1, recover_after: 1 }
        }
    }

    /// The groups that check `name` lists (none if it is not configured).
    pub open spec fn groups_of_check(&self, name: Seq<char>) -> Seq<Seq<char>> {
        if self.check_groups_map().contains_key(name) {
            self.check_groups_map()[name]
        } else {
            Seq::empty()
        }
    }

    /// The groups, by name.
    pub closed spec fn group_states(&self) -> Map<Seq<char>, GroupState> {
        self.groups@
    }

    /// The sanitized global labels.
    pub closed spec fn global_labels_map(&self) -> Map<Seq<char>, Seq<char>> {
        labels_view(self.global_labels)
    }

    /// The response profiles, by name.
    pub closed spec fn profiles(&self) -> Map<Seq<char>, ResponseProfileConfig> {
        self.response_profiles@
    }

    /// What holds between any two operations: groups keep their name lists
    /// sorted, every result is stored under its own name, and no history is
    /// longer than the limit.
    pub closed spec fn inv(&self) -> bool {
        &&& crate::strmap::distinct_keys(self.results.entries())
        &&& forall|k: Seq<char>| #[trigger] self.groups@.contains_key(k) ==> self.groups@[k].wf()
        &&& forall|k: Seq<char>| #[trigger] self.results_map().contains_key(k) ==> self.results_map()[k].name == k
        &&& forall|k: Seq<char>| #[trigger] self.histories().contains_key(k) ==> self.histories()[k].len() <= self.history_size
    }

    /// Labels `per_check` merged over `global`, keys of `per_check` sanitized
    /// (check-level labels win).
    pub fn merge_labels(global: &StrMap<String>, per_check: &StrMap<String>) -> (r: StrMap<String>)
        ensures
            labels_view(r) == merge_entries(labels_view(*global), per_check.entries()),
    {
        let mut out = global.clone_map();
        let n = per_check.len();
        let mut i: usize = 0;
        proof { assert(per_check.entries().take(0) =~= Seq::<(String, String)>::empty()); }
        while i < n
            invariant
                n == per_check.entries().len(),
                i <= n,
                labels_view(out) == merge_entries(labels_view(*global), per_check.entries().take(i as int)),
            decreases n - i,
        {
            let k = sanitize_label_name(per_check.key_at(i).as_str());
            let v = per_check.value_at(i).clone();
            let ghost before = labels_view(out);
            let ghost vv = v@;
            out.insert(k, v);
            proof {
                assert(labels_view(out) =~= before.insert(k@, vv));
                let t = per_check.entries().take(i + 1);
                assert(t.drop_last() =~= per_check.entries().take(i as int));
            }
            i = i + 1;
        }
        proof { assert(per_check.entries().take(n as int) =~= per_check.entries()); }
        out
    }
}


proof fn lemma_initial_names(g: Map<Seq<char>, Seq<char>>, checks: Seq<CheckConfig>)
    ensures
        forall|k: Seq<char>| #[trigger] initial_results(g, checks).contains_key(k) ==> initial_results(g, checks)[k].name == k,
    decreases checks.len(),
{
    if checks.len() > 0 {
        lemma_initial_names(g, checks.drop_last());
    }
}

/// Builds what is kept of group `gname` with configuration `gcfg`.
fn build_group(gname: &str, gcfg: &crate::config::GroupConfig, checks: &Vec<CheckConfig>) -> (g: GroupState)
    ensures
        g.wf(),
        g.default_name() == opt_view(gcfg.default_profile),
        g.profile_set() == names(gcfg.profiles@).to_set(),
        g.check_set() == checks_in_group(checks@, gname@),
{
    let profile_names = crate::order::sorted_unique(&gcfg.profiles);
    proof { assert(views(gcfg.profiles@) =~= names(gcfg.profiles@)); }
    let mut check_names: Vec<String> = Vec::new();
    let n = checks.len();
    let mut i: usize = 0;
    proof {
        assert(views(check_names@).to_set() =~= checks_in_group(checks@.take(0), gname@));
    }
    while i < n
        invariant
            n == checks@.len(),
            i <= n,
            strictly_sorted(views(check_names@)),
            views(check_names@).to_set() == checks_in_group(checks@.take(i as int), gname@),
        decreases n - i,
    {
        let c = &checks[i];
        let member = contains_name(&c.groups, gname);
        let ghost before = views(check_names@).to_set();
        if member {
            insert_unique_sorted(&mut check_names, c.name.clone());
        }
        proof {
            let t = checks@.take(i + 1);
            assert(t =~= checks@.take(i as int).push(checks@[i as int]));
            let prev = checks_in_group(checks@.take(i as int), gname@);
            let next = checks_in_group(t, gname@);
            assert forall|nm: Seq<char>| next.contains(nm) <==> (prev.contains(nm) || (member && nm == c.name@)) by {
                if next.contains(nm) {
                    let j = choose|j: int| 0 <= j < t.len() && #[trigger] t[j].name@ == nm && names(t[j].groups@).contains(gname@);
                    if j < i {
                        assert(checks@.take(i as int)[j].name@ == nm);
                    }
                }
                if prev.contains(nm) {
                    let j = choose|j: int| 0 <= j < checks@.take(i as int).len() && #[trigger] checks@.take(i as int)[j].name@ == nm
                        && names(checks@.take(i as int)[j].groups@).contains(gname@);
                    assert(t[j].name@ == nm);
                }
                if member && nm == c.name@ {
                    assert(t[i as int].name@ == nm);
                }
            }
            if member {
                assert(views(check_names@).to_set() =~= next);
            } else {
                assert(views(check_names@).to_set() =~= next);
            }
        }
        i = i + 1;
    }
    proof { assert(checks@.take(n as int) =~= checks@); }
    GroupState {
        default_profile: clone_opt_string(&gcfg.default_profile),
        profile_names,
        check_names,
    }
}

impl AppState {
    /// The state for a configuration: every check starts WARN with error
    /// "not yet executed" and its merged labels; no history yet.
    pub fn new(cfg: &Config) -> (s: AppState)
        ensures
            s.inv(),
            s.results_map() == initial_results(global_labels_of(*cfg), cfg.checks@),
            s.histories() == Map::<Seq<char>, Seq<HistoryEntryView>>::empty(),
            s.history_limit() == cfg.global.history_size,
            s.refresh() == cfg.global.refresh_interval,
            s.global_labels_map() == global_labels_of(*cfg),
            s.policy_map() == policies_of(cfg.checks@),
            s.check_groups_map() == check_groups_of(cfg.checks@),
            s.group_states().dom() == cfg.groups@.dom(),
            forall|k: Seq<char>| #[trigger] s.group_states().contains_key(k) ==> group_built(*cfg, k, s.group_states()[k]),
            s.profiles() == cfg.response_profiles@,
            s.check_list().len() == cfg.checks@.len(),
            forall|i: int| 0 <= i < cfg.checks@.len() ==> cloned(#[trigger] cfg.checks@[i], s.check_list()[i]),
    {
        let empty_labels: StrMap<String> = StrMap::new();
        proof { assert(labels_view(empty_labels) =~= Map::<Seq<char>, Seq<char>>::empty()); }
        let global_labels = match &cfg.metrics {
            Some(m) => match &m.static_labels {
                Some(sl) => AppState::merge_labels(&empty_labels, sl),
                None => StrMap::new(),
            },
            None => StrMap::new(),
        };
        proof { assert(labels_view(global_labels) =~= global_labels_of(*cfg)); }

        let mut results: StrMap<CheckResult> = StrMap::new();
        let mut debounce_policies: StrMap<DebouncePolicyConfig> = StrMap::new();
        let mut check_groups: StrMap<Vec<String>> = StrMap::new();
        let n = cfg.checks.len();
        let mut i: usize = 0;
        proof {
            assert(cfg.checks@.take(0) =~= Seq::<CheckConfig>::empty());
            assert(results@.map_values(|r: CheckResult| r@) =~= Map::<Seq<char>, CheckResultView>::empty());
            assert(check_groups@.map_values(|v: Vec<String>| names(v@)) =~= Map::<Seq<char>, Seq<Seq<char>>>::empty());
        }
        while i < n
            invariant
                n == cfg.checks@.len(),
                i <= n,
                labels_view(global_labels) == global_labels_of(*cfg),
                results@.map_values(|r: CheckResult| r@) == initial_results(global_labels_of(*cfg), cfg.checks@.take(i as int)),
                debounce_policies@ == policies_of(cfg.checks@.take(i as int)),
                check_groups@.map_values(|v: Vec<String>| names(v@)) == check_groups_of(cfg.checks@.take(i as int)),
            decreases n - i,
        {
            let c = &cfg.checks[i];
            let labels = AppState::merge_labels(&global_labels, &c.static_labels);
            let mut error = String::new();
            append_str(&mut error, "not yet executed");
            let r = CheckResult {
                name: c.name.clone(),
                status: CheckStatus::Warn,
                critical: c.critical,
                last_run: None,
                duration: None,
                error: Some(error),
                labels,
            };
            let ghost before_r = results@.map_values(|r: CheckResult| r@);
            let ghost before_g = check_groups@.map_values(|v: Vec<String>| names(v@));
            let ghost rv = r@;
            results.insert(c.name.clone(), r);
            debounce_policies.insert(c.name.clone(), c.debounce);
            let gs = clone_strings(&c.groups);
            check_groups.insert(c.name.clone(), gs);
            proof {
                let t = cfg.checks@.take(i + 1);
                assert(t.drop_last() =~= cfg.checks@.take(i as int));
                assert(t.last() == cfg.checks@[i as int]);
                assert(Seq::<char>::empty() + "not yet executed"@ =~= "not yet executed"@);
                assert(rv == initial_result(global_labels_of(*cfg), cfg.checks@[i as int]));
                assert(results@.map_values(|r: CheckResult| r@) =~= before_r.insert(c.name@, rv));
                assert(check_groups@.map_values(|v: Vec<String>| names(v@)) =~= before_g.insert(c.name@, names(c.groups@)));
            }
            i = i + 1;
        }
        proof { assert(cfg.checks@.take(n as int) =~= cfg.checks@); }

        let mut groups: StrMap<GroupState> = StrMap::new();
        let ng = cfg.groups.len();
        let mut j: usize = 0;
        cfg.groups.note_distinct();
        proof {
            assert(groups@.dom() =~= cfg.groups.key_seq().take(0).to_set());
        }
        while j < ng
            invariant
                ng == cfg.groups.entries().len(),
                j <= ng,
                crate::strmap::distinct_keys(cfg.groups.entries()),
                groups@.dom() == cfg.groups.key_seq().take(j as int).to_set(),
                forall|k: Seq<char>| #[trigger] groups@.contains_key(k) ==> group_built(*cfg, k, groups@[k]),
            decreases ng - j,
        {
            let gname = cfg.groups.key_at(j);
            let gcfg = cfg.groups.value_at(j);
            let g = build_group(gname.as_str(), gcfg, &cfg.checks);
            let ghost before = groups@;
            groups.insert(gname.clone(), g);
            proof {
                assert(cfg.groups.key_seq().take(j + 1) =~= cfg.groups.key_seq().take(j as int).push(gname@));
                cfg.groups.key_seq().take(j as int).lemma_push_to_set_commute(gname@);
                assert(groups@.dom() =~= cfg.groups.key_seq().take(j + 1).to_set());
            }
            j = j + 1;
        }
        proof {
            assert(cfg.groups.key_seq().take(ng as int) =~= cfg.groups.key_seq());
            cfg.groups.lemma_dom_len();
        }

        let history: StrMap<Vec<CheckHistoryEntry>> = StrMap::new();
        let s = AppState {
            start: instant_now(),
            refresh_interval: cfg.global.refresh_interval,
            history_size: cfg.global.history_size,
            global_labels,
            checks: cfg.checks.clone(),
            debounce_policies,
            check_groups,
            groups,
            response_profiles: cfg.response_profiles.clone_map(),
            results,
            history,
        };
        s.results.note_distinct();
        proof {
            lemma_initial_names(global_labels_of(*cfg), cfg.checks@);
            assert(s.histories() =~= Map::<Seq<char>, Seq<HistoryEntryView>>::empty());
        }
        s
    }
}


/// The last `n` entries of `s` (all of them if there are fewer).
pub open spec fn keep_last(s: Seq<HistoryEntryView>, n: nat) -> Seq<HistoryEntryView> {
    if s.len() > n { s.skip(s.len() - n) } else { s }
}

/// The history entry that records raw status `raw` reported as `eff`.
pub open spec fn entry_for(raw: CheckStatus, eff: CheckResultView, ts: WallTime) -> HistoryEntryView {
    HistoryEntryView {
        raw_status: raw,
        status: eff.status,
        critical: eff.critical,
        timestamp: ts,
        duration: eff.duration,
        error: eff.error,
    }
}

impl AppState {
    /// The stored result of check `name`, if any.
    pub open spec fn previous_of(&self, name: Seq<char>) -> Option<CheckResultView> {
        if self.results_map().contains_key(name) { Some(self.results_map()[name]) } else { None }
    }

    /// The recorded history of check `name` (empty if none).
    pub open spec fn history_of(&self, name: Seq<char>) -> Seq<HistoryEntryView> {
        if self.histories().contains_key(name) { self.histories()[name] } else { Seq::empty() }
    }

    /// What gets reported for the raw result `r`.
    pub open spec fn effective_of(&self, r: CheckResultView) -> CheckResultView {
        debounced(self.previous_of(r.name), self.history_of(r.name), self.policy_for(r.name), r)
    }

    /// The history of `r`'s check after `r` is recorded: a result that ran
    /// adds an entry, and only the last `history_limit` entries are kept.
    pub open spec fn next_history(&self, r: CheckResultView) -> Seq<HistoryEntryView> {
        let eff = self.effective_of(r);
        match eff.last_run {
            Some(ts) => keep_last(self.history_of(r.name).push(entry_for(r.status, eff, ts)), self.history_limit()),
            None => self.history_of(r.name),
        }
    }

    /// Records a new raw result: debounces it against the stored result and
    /// history, stores what is reported, appends to the bounded history and
    /// returns the status-change event, if the reported status changed.
    pub fn update(&mut self, r: CheckResult) -> (ev: Option<StatusChangeEvent>)
        requires
            old(self).inv(),
        ensures
            final(self).inv(),
            final(self).results_map() == old(self).results_map().insert(r@.name, old(self).effective_of(r@)),
            final(self).histories() == old(self).histories().insert(r@.name, old(self).next_history(r@)),
            match ev {
                Some(e) => change_event(old(self).previous_of(r@.name), old(self).effective_of(r@), old(self).groups_of_check(r@.name)) == Some(e@),
                None => change_event(old(self).previous_of(r@.name), old(self).effective_of(r@), old(self).groups_of_check(r@.name)) is None,
            },
            final(self).history_limit() == old(self).history_limit(),
            final(self).refresh() == old(self).refresh(),
            final(self).check_list() == old(self).check_list(),
            final(self).policy_map() == old(self).policy_map(),
            final(self).check_groups_map() == old(self).check_groups_map(),
            final(self).group_states() == old(self).group_states(),
            final(self).global_labels_map() == old(self).global_labels_map(),
            final(self).profiles() == old(self).profiles(),
    {
        let ghost name = r@.name;
        let policy = match self.debounce_policies.get(r.name.as_str()) {
            Some(p) => *p,
            None => DebouncePolicyConfig::default_policy(),
        };
        let previous: Option<CheckResult> = match self.results.get(r.name.as_str()) {
            Some(p) => Some(p.duplicate()),
            None => None,
        };
        let mut entries: Vec<CheckHistoryEntry> = match self.history.get(r.name.as_str()) {
            Some(h) => clone_history(h),
            None => Vec::new(),
        };
        proof {
            if !self.histories().contains_key(name) {
                assert(history_view(entries@) =~= Seq::<HistoryEntryView>::empty());
            }
        }
        let effective = match &previous {
            Some(p) => apply_debounce(Some(p), &entries, &policy, &r),
            None => apply_debounce(None, &entries, &policy, &r),
        };
        let ghost eff = effective@;
        let ghost hist = history_view(entries@);
        let limit = self.history_size;
        match effective.last_run {
            Some(ts) => {
                let e = CheckHistoryEntry {
                    raw_status: r.status,
                    status: effective.status,
                    critical: effective.critical,
                    timestamp: ts,
                    duration: effective.duration,
                    error: clone_opt_string(&effective.error),
                };
                let ghost ev_ = e@;
                entries.push(e);
                let ghost full = hist.push(ev_);
                proof {
                    assert(history_view(entries@) =~= full);
                    assert(full.skip(0) =~= full);
                }
                let ghost mut d: int = 0;
                while entries.len() > limit
                    invariant
                        history_view(entries@) == full.skip(d),
                        0 <= d <= full.len(),
                        d == 0 || entries@.len() >= limit,
                    decreases entries@.len(),
                {
                    let ghost before = entries@;
                    proof {
                        assert(history_view(before).len() == before.len());
                        assert(full.skip(d).len() == full.len() - d);
                    }
                    entries.remove(0);
                    proof {
                        assert(entries@ =~= before.subrange(1, before.len() as int));
                        assert forall|q: int| 0 <= q < history_view(entries@).len() implies history_view(entries@)[q] == full.skip(d + 1)[q] by {
                            assert(history_view(entries@)[q] == entries@[q]@);
                            assert(entries@[q] == before[q + 1]);
                            assert(history_view(before)[q + 1] == before[q + 1]@);
                        }
                        assert(history_view(entries@) =~= full.skip(d + 1));
                        d = d + 1;
                    }
                }
                proof {
                    assert(history_view(entries@) =~= keep_last(full, limit as nat));
                }
            },
            None => {},
        }
        let ghost next_h = history_view(entries@);
        let ghost old_self = *self;
        self.results.insert(effective.name.clone(), effective.duplicate());
        self.history.insert(r.name.clone(), entries);
        self.results.note_distinct();
        proof {
            assert(self.results_map() =~= old_self.results_map().insert(name, eff));
            assert(self.histories() =~= old_self.histories().insert(name, next_h));
            assert forall|k: Seq<char>| #[trigger] self.histories().contains_key(k) implies self.histories()[k].len() <= self.history_size by {
                if k != name {
                    assert(old_self.histories().contains_key(k));
                }
            }
            assert forall|k: Seq<char>| #[trigger] self.results_map().contains_key(k) implies self.results_map()[k].name == k by {
                if k != name {
                    assert(old_self.results_map().contains_key(k));
                }
            }
        }
        let prev = match previous {
            Some(p) => p,
            None => return None,
        };
        if prev.last_run.is_none() || prev.status == effective.status {
            return None;
        }
        let groups = match self.check_groups.get(effective.name.as_str()) {
            Some(g) => clone_strings(g),
            None => Vec::new(),
        };
        proof {
            if !old_self.check_groups_map().contains_key(name) {
                assert(names(groups@) =~= Seq::<Seq<char>>::empty());
            }
        }
        let timestamp = match effective.last_run {
            Some(t) => now_rfc3339(t),
            None => {
                let mut s = String::new();
                append_str(&mut s, "-");
                proof { assert(s@ =~= "-"@); }
                s
            },
        };
        let e = StatusChangeEvent {
            event: NotificationEventType::StatusChange,
            check_name: effective.name.clone(),
            critical: effective.critical,
            old_status: prev.status,
            new_status: effective.status,
            timestamp,
            error: clone_opt_string(&effective.error),
            groups,
        };
        Some(e)
    }
}


/// Selects the results of checks in group `g`.
pub open spec fn in_group(g: GroupState) -> spec_fn(CheckResultView) -> bool {
    |r: CheckResultView| g.check_set().contains(r.name)
}

/// The last `limit` entries of a history.
pub open spec fn recent(h: Seq<HistoryEntryView>, limit: nat) -> Seq<HistoryEntryView> {
    if h.len() > limit { h.skip(h.len() - limit) } else { h }
}

/// The aggregate of `s`: healthy flag, summary, failing and warning results.
pub open spec fn aggregate_matches(
    s: Seq<CheckResultView>,
    r: (bool, AggregateSummary, Seq<CheckResultView>, Seq<CheckResultView>),
) -> bool {
    &&& r.0 == aggregate_ok(s)
    &&& r.1 == summary_of(s)
    &&& r.2 == s.filter(failed_pred())
    &&& r.3 == s.filter(warned_pred())
}

fn contains_sorted_name(v: &Vec<String>, s: &str) -> (b: bool)
    ensures
        b == views(v@).to_set().contains(s@),
{
    let b = contains_name(v, s);
    proof { assert(views(v@) =~= names(v@)); }
    b
}

impl AppState {
    /// How often checks are refreshed.
    pub fn refresh_interval(&self) -> (d: Duration)
        ensures
            d == self.refresh(),
    {
        self.refresh_interval
    }

    /// The merged labels of a check under this state's global labels.
    pub fn labels_for_check(&self, cfg: &CheckConfig) -> (r: StrMap<String>)
        ensures
            labels_view(r) == merge_entries(self.global_labels_map(), cfg.static_labels.entries()),
    {
        AppState::merge_labels(&self.global_labels, &cfg.static_labels)
    }

    /// The configured checks.
    pub fn check_configs(&self) -> (r: &Vec<CheckConfig>)
        ensures
            r@ == self.check_list(),
    {
        &self.checks
    }

    /// The response profile named `name`, if any.
    pub fn response_profile(&self, name: &str) -> (r: Option<&ResponseProfileConfig>)
        ensures
            r is Some <==> self.profiles().contains_key(name@),
            r matches Some(p) ==> *p == self.profiles()[name@],
    {
        self.response_profiles.get(name)
    }

    /// The default profile of group `group_name`, if the group exists and
    /// has one.
    pub fn default_profile_name_for_group(&self, group_name: &str) -> (r: Option<&str>)
        ensures
            match r {
                Some(p) => self.group_states().contains_key(group_name@)
                    && self.group_states()[group_name@].default_name() == Some(p@),
                None => !self.group_states().contains_key(group_name@)
                    || self.group_states()[group_name@].default_name() is None,
            },
    {
        match self.groups.get(group_name) {
            Some(g) => match &g.default_profile {
                Some(p) => Some(p.as_str()),
                None => None,
            },
            None => None,
        }
    }

    /// The profiles that group `group_name` allows, sorted, if it exists.
    pub fn profile_names_for_group(&self, group_name: &str) -> (r: Option<Vec<String>>)
        requires
            self.inv(),
        ensures
            r is Some <==> self.group_states().contains_key(group_name@),
            r matches Some(v) ==> strictly_sorted(views(v@))
                && views(v@).to_set() == self.group_states()[group_name@].profile_set(),
    {
        match self.groups.get(group_name) {
            Some(g) => {
                let v = clone_strings(&g.profile_names);
                Some(v)
            },
            None => None,
        }
    }

    /// Whether group `group_name` exists and allows profile `profile_name`.
    pub fn group_allows_profile(&self, group_name: &str, profile_name: &str) -> (b: bool)
        ensures
            b == (self.group_states().contains_key(group_name@)
                && self.group_states()[group_name@].profile_set().contains(profile_name@)),
    {
        match self.groups.get(group_name) {
            Some(g) => contains_sorted_name(&g.profile_names, profile_name),
            None => false,
        }
    }

    /// The group names, sorted.
    pub fn group_names(&self) -> (r: Vec<String>)
        ensures
            strictly_sorted(views(r@)),
            views(r@).to_set() == self.group_states().dom(),
    {
        let n = self.groups.len();
        let mut keys: Vec<String> = Vec::new();
        let mut i: usize = 0;
        while i < n
            invariant
                n == self.groups.entries().len(),
                i <= n,
                views(keys@) == self.groups.key_seq().take(i as int),
            decreases n - i,
        {
            let k = self.groups.key_at(i).clone();
            let ghost before = keys@;
            keys.push(k);
            proof {
                assert(views(keys@) =~= views(before).push(k@));
                assert(self.groups.key_seq().take(i + 1) =~= self.groups.key_seq().take(i as int).push(k@));
            }
            i = i + 1;
        }
        self.groups.note_distinct();
        proof {
            assert(self.groups.key_seq().take(n as int) =~= self.groups.key_seq());
            self.groups.lemma_dom_len();
        }
        crate::order::sorted_unique(&keys)
    }

    /// How many distinct checks group `name` holds, if it exists.
    pub fn group_check_count(&self, name: &str) -> (r: Option<usize>)
        requires
            self.inv(),
        ensures
            r is Some <==> self.group_states().contains_key(name@),
            r matches Some(n) ==> n == self.group_states()[name@].check_set().len(),
    {
        match self.groups.get(name) {
            Some(g) => {
                proof {
                    assert(self.groups@.contains_key(name@));
                    crate::order::lemma_strict_sorted(views(g.check_names@));
                    views(g.check_names@).unique_seq_to_set();
                }
                Some(g.check_names.len())
            },
            None => None,
        }
    }

    /// Copies of all latest results, in the order their checks were stored.
    pub fn snapshot(&self) -> (r: Vec<CheckResult>)
        ensures
            result_views(r@) == self.result_list(),
    {
        let n = self.results.len();
        let mut out: Vec<CheckResult> = Vec::new();
        let mut i: usize = 0;
        while i < n
            invariant
                n == self.results.entries().len(),
                i <= n,
                result_views(out@) == self.result_list().take(i as int),
            decreases n - i,
        {
            let c = self.results.value_at(i).duplicate();
            let ghost before = out@;
            out.push(c);
            proof {
                assert(result_views(out@) =~= result_views(before).push(c@));
                assert(self.result_list().take(i + 1) =~= self.result_list().take(i as int).push(c@));
            }
            i = i + 1;
        }
        proof { assert(self.result_list().take(n as int) =~= self.result_list()); }
        out
    }

    /// Counts and partitions `results` (see `aggregate_results`).
    pub fn aggregate_results(results: &Vec<CheckResult>) -> (r: (bool, AggregateSummary, Vec<CheckResult>, Vec<CheckResult>))
        ensures
            aggregate_matches(result_views(results@), (r.0, r.1, result_views(r.2@), result_views(r.3@))),
    {
        aggregate_results(results)
    }

    /// The aggregate over all latest results.
    pub fn aggregate_snapshot(&self) -> (r: (bool, AggregateSummary, Vec<CheckResult>, Vec<CheckResult>))
        ensures
            aggregate_matches(self.result_list(), (r.0, r.1, result_views(r.2@), result_views(r.3@))),
    {
        let results = self.snapshot();
        AppState::aggregate_results(&results)
    }

    /// Copies of the latest results of the checks in group `group_name`, or
    /// none if there is no such group.
    pub fn snapshot_for_group(&self, group_name: &str) -> (r: Option<Vec<CheckResult>>)
        ensures
            r is Some <==> self.group_states().contains_key(group_name@),
            r matches Some(v) ==> result_views(v@) == self.result_list().filter(in_group(self.group_states()[group_name@])),
    {
        let g = match self.groups.get(group_name) {
            Some(g) => g,
            None => return None,
        };
        let ghost pred = in_group(*g);
        let n = self.results.len();
        let mut out: Vec<CheckResult> = Vec::new();
        let mut i: usize = 0;
        proof { assert(self.result_list().take(0).filter(pred) =~= Seq::<CheckResultView>::empty()); }
        while i < n
            invariant
                n == self.results.entries().len(),
                i <= n,
                pred == in_group(*g),
                result_views(out@) == self.result_list().take(i as int).filter(pred),
            decreases n - i,
        {
            let c = self.results.value_at(i);
            let ghost t = self.result_list().take(i as int);
            proof {
                assert(self.result_list().take(i + 1) =~= t.push(c@));
                t.lemma_filter_push(c@, pred);
            }
            if contains_sorted_name(&g.check_names, c.name.as_str()) {
                let d = c.duplicate();
                let ghost before = out@;
                out.push(d);
                proof { assert(result_views(out@) =~= result_views(before).push(d@)); }
            }
            i = i + 1;
        }
        proof { assert(self.result_list().take(n as int) =~= self.result_list()); }
        Some(out)
    }

    /// The aggregate over the checks of group `group_name`, or none if there
    /// is no such group.
    pub fn aggregate_snapshot_for_group(&self, group_name: &str) -> (r: Option<(bool, AggregateSummary, Vec<CheckResult>, Vec<CheckResult>)>)
        ensures
            r is Some <==> self.group_states().contains_key(group_name@),
            r matches Some(a) ==> aggregate_matches(
                self.result_list().filter(in_group(self.group_states()[group_name@])),
                (a.0, a.1, result_views(a.2@), result_views(a.3@)),
            ),
    {
        match self.snapshot_for_group(group_name) {
            Some(v) => Some(AppState::aggregate_results(&v)),
            None => None,
        }
    }

    /// A copy of the latest result of check `check_name`.
    pub fn get(&self, check_name: &str) -> (r: Option<CheckResult>)
        ensures
            r is Some <==> self.results_map().contains_key(check_name@),
            r matches Some(c) ==> c@ == self.results_map()[check_name@],
    {
        match self.results.get(check_name) {
            Some(c) => Some(c.duplicate()),
            None => None,
        }
    }

    /// The recorded history of a known check (empty if it has none yet), or
    /// none for an unknown check.
    pub fn history_for_check(&self, check_name: &str) -> (r: Option<Vec<CheckHistoryEntry>>)
        ensures
            r is Some <==> self.results_map().contains_key(check_name@),
            r matches Some(h) ==> history_view(h@) == self.history_of(check_name@),
    {
        if !self.results.contains_key(check_name) {
            return None;
        }
        match self.history.get(check_name) {
            Some(h) => Some(clone_history(h)),
            None => {
                let v: Vec<CheckHistoryEntry> = Vec::new();
                proof { assert(history_view(v@) =~= Seq::<HistoryEntryView>::empty()); }
                Some(v)
            },
        }
    }

    /// The last `limit` history entries of every check that has a history,
    /// keyed by check name in the order the histories were started.
    pub fn recent_history_snapshot(&self, limit: usize) -> (r: StrMap<Vec<CheckHistoryEntry>>)
        ensures
            r.key_seq() == self.history_names(),
            r@.map_values(|h: Vec<CheckHistoryEntry>| history_view(h@))
                == self.histories().map_values(|h: Seq<HistoryEntryView>| recent(h, limit as nat)),
    {
        let n = self.history.len();
        let mut out: StrMap<Vec<CheckHistoryEntry>> = StrMap::new();
        let mut i: usize = 0;
        self.history.note_distinct();
        proof {
            assert(out.key_seq() =~= self.history.key_seq().take(0));
        }
        while i < n
            invariant
                n == self.history.entries().len(),
                i <= n,
                crate::strmap::distinct_keys(self.history.entries()),
                out.key_seq() == self.history.key_seq().take(i as int),
                forall|k: Seq<char>| #[trigger] out@.contains_key(k) ==> self.history@.contains_key(k)
                    && history_view(out@[k]@) == recent(history_view(self.history@[k]@), limit as nat),
                out@.dom() == self.history.key_seq().take(i as int).to_set(),
            decreases n - i,
        {
            let k = self.history.key_at(i);
            let h = self.history.value_at(i);
            let len = h.len();
            let start = if len > limit { len - limit } else { 0 };
            let mut tail: Vec<CheckHistoryEntry> = Vec::new();
            let mut j: usize = start;
            proof { assert(history_view(tail@) =~= history_view(h@).subrange(start as int, start as int)); }
            while j < len
                invariant
                    len == h@.len(),
                    start <= j <= len,
                    history_view(tail@) == history_view(h@).subrange(start as int, j as int),
                decreases len - j,
            {
                let e = h[j].duplicate();
                let ghost before = tail@;
                tail.push(e);
                proof {
                    assert(history_view(tail@) =~= history_view(before).push(e@));
                    assert(history_view(h@).subrange(start as int, j + 1) =~= history_view(h@).subrange(start as int, j as int).push(h@[j as int]@));
                }
                j = j + 1;
            }
            proof {
                assert(history_view(tail@) =~= recent(history_view(h@), limit as nat));
                assert(!self.history.key_seq().take(i as int).contains(k@)) by {
                    if self.history.key_seq().take(i as int).contains(k@) {
                        let q = choose|q: int| 0 <= q < i && self.history.key_seq().take(i as int)[q] == k@;
                        assert(self.history.entries()[q].0@ == self.history.entries()[i as int].0@);
                    }
                }
                assert(!out@.contains_key(k@));
            }
            out.insert(k.clone(), tail);
            proof {
                assert(self.history.key_seq().take(i + 1) =~= self.history.key_seq().take(i as int).push(k@));
                self.history.key_seq().take(i as int).lemma_push_to_set_commute(k@);
            }
            i = i + 1;
        }
        proof {
            assert(self.history.key_seq().take(n as int) =~= self.history.key_seq());
            self.history.lemma_dom_len();
            assert(out@.map_values(|h: Vec<CheckHistoryEntry>| history_view(h@))
                =~= self.histories().map_values(|h: Seq<HistoryEntryView>| recent(h, limit as nat)));
        }
        out
    }

    /// How long the application has been running, human-friendly.
    pub fn uptime(&self) -> (r: String)
        ensures
            exists|d: Duration| r@ == uptime_spec(d),
    {
        let d = instant_elapsed(&self.start);
        let r = uptime_text(d);
        r
    }
}


/// The list that snapshots and aggregates read holds every stored result
/// exactly once: as many entries as stored names, each entry equal to the
/// result stored under its name, and no name twice (the order is the order
/// in which the checks were first stored).
pub proof fn law_result_list_matches_results(s: AppState)
    requires
        s.inv(),
    ensures
        s.result_list().len() == s.results_map().dom().len(),
        forall|i: int| 0 <= i < s.result_list().len() ==> s.results_map().contains_key(#[trigger] s.result_list()[i].name)
            && s.results_map()[s.result_list()[i].name] == s.result_list()[i],
        forall|i: int, j: int| 0 <= i < s.result_list().len() && 0 <= j < s.result_list().len() && i != j
            ==> #[trigger] s.result_list()[i].name != #[trigger] s.result_list()[j].name,
        forall|k: Seq<char>| #[trigger] s.results_map().contains_key(k)
            ==> exists|i: int| 0 <= i < s.result_list().len() && s.result_list()[i].name == k,
{
    let es = s.results.entries();
    let l = s.result_list();
    s.results.lemma_dom_len();
    assert(s.results_map().dom() =~= s.results@.dom());
    assert forall|i: int| 0 <= i < l.len() implies s.results_map().contains_key(#[trigger] l[i].name)
        && s.results_map()[l[i].name] == l[i] by {
        s.results.lemma_index(i);
        let k = es[i].0@;
        assert(s.results_map()[k] == es[i].1@);
        assert(l[i] == es[i].1@);
        assert(s.results_map()[k].name == k);
    }
    assert forall|i: int, j: int| 0 <= i < l.len() && 0 <= j < l.len() && i != j
        implies #[trigger] l[i].name != #[trigger] l[j].name by {
        s.results.lemma_index(i);
        s.results.lemma_index(j);
        assert(s.results_map()[es[i].0@].name == es[i].0@);
        assert(s.results_map()[es[j].0@].name == es[j].0@);
        assert(es[i].0@ != es[j].0@);
    }
    assert forall|k: Seq<char>| #[trigger] s.results_map().contains_key(k)
        implies exists|i: int| 0 <= i < l.len() && l[i].name == k by {
        let i = s.results.index_of(k);
        assert(s.results.has(k));
        assert(es[i].0@ == k);
        s.results.lemma_index(i);
        assert(l[i] == es[i].1@);
        assert(s.results_map()[k].name == k);
    }
}

/// Every history stays within the history limit: recording any result
/// leaves the check's history at most `history_size` entries long.
pub proof fn law_history_bounded(s: AppState, r: CheckResultView)
    requires
        s.inv(),
    ensures
        s.next_history(r).len() <= s.history_limit(),
{
    let h = s.history_of(r.name);
    if s.histories().contains_key(r.name) {
        assert(h.len() <= s.history_size);
    }
}

/// A result that ran is recorded as the newest history entry, after the
/// previous entries that fit under the limit.
pub proof fn law_history_keeps_newest(s: AppState, r: CheckResultView)
    requires
        s.inv(),
        s.history_limit() > 0,
        s.effective_of(r).last_run is Some,
    ensures
        s.next_history(r).last() == entry_for(r.status, s.effective_of(r), s.effective_of(r).last_run.unwrap()),
        s.next_history(r).len() == if s.history_of(r.name).len() + 1 <= s.history_limit() { s.history_of(r.name).len() + 1 } else { s.history_limit() },
{
    law_history_bounded(s, r);
}

/// Without a debounce policy (thresholds of 1) every result is reported with
/// the status it came with.
pub proof fn law_no_debounce_reports_raw(
    prev: Option<CheckResultView>,
    hist: Seq<HistoryEntryView>,
    cur: CheckResultView,
)
    ensures
        debounced(prev, hist, DebouncePolicyConfig { fail_after: 1, recover_after: 1 }, cur).status == cur.status,
{
}

/// Debouncing changes only the status and the error: name, criticality,
/// labels, run time and duration are those of the raw result.
pub proof fn law_debounce_keeps_identity(
    prev: Option<CheckResultView>,
    hist: Seq<HistoryEntryView>,
    policy: DebouncePolicyConfig,
    cur: CheckResultView,
)
    ensures
        ({
            let e = debounced(prev, hist, policy, cur);
            e.name == cur.name && e.critical == cur.critical && e.labels == cur.labels
                && e.last_run == cur.last_run && e.duration == cur.duration
        }),
{
}

/// Once a check has a stored result, an UP report never carries an error.
pub proof fn law_up_has_no_error(
    prev: Option<CheckResultView>,
    hist: Seq<HistoryEntryView>,
    policy: DebouncePolicyConfig,
    cur: CheckResultView,
)
    requires
        prev is Some,
    ensures
        debounced(prev, hist, policy, cur).status == CheckStatus::Up ==> debounced(prev, hist, policy, cur).error is None,
{
}

/// A failing result after an UP report is reported UP exactly while the
/// failure streak it completes is shorter than `fail_after`.
pub proof fn law_fail_threshold(
    p: CheckResultView,
    hist: Seq<HistoryEntryView>,
    policy: DebouncePolicyConfig,
    cur: CheckResultView,
)
    requires
        p.status == CheckStatus::Up,
        cur.status != CheckStatus::Up,
    ensures
        debounced(Some(p), hist, policy, cur).status
            == if trailing_non_up(hist) + 1 < policy.fail_after { CheckStatus::Up } else { cur.status },
{
}

/// An UP result after a non-UP report keeps the previous report exactly
/// while the UP streak it completes is shorter than `recover_after`.
pub proof fn law_recover_threshold(
    p: CheckResultView,
    hist: Seq<HistoryEntryView>,
    policy: DebouncePolicyConfig,
    cur: CheckResultView,
)
    requires
        p.status != CheckStatus::Up,
        cur.status == CheckStatus::Up,
    ensures
        debounced(Some(p), hist, policy, cur).status
            == if trailing_raw(hist, CheckStatus::Up) + 1 < policy.recover_after { p.status } else { CheckStatus::Up },
        debounced(Some(p), hist, policy, cur).error
            == if trailing_raw(hist, CheckStatus::Up) + 1 < policy.recover_after { p.error } else { None },
{
}

proof fn lemma_trailing_non_up_keep_last(s: Seq<HistoryEntryView>, n: nat)
    ensures
        trailing_non_up(keep_last(s, n)) == if trailing_non_up(s) < n { trailing_non_up(s) } else { n },
    decreases s.len(),
{
    lemma_trailing_bounds(s, CheckStatus::Up);
    if s.len() > n {
        let t = s.skip(s.len() - n);
        if n > 0 {
            assert(t.last() == s.last());
            assert(t.drop_last() =~= keep_last(s.drop_last(), (n - 1) as nat));
            lemma_trailing_non_up_keep_last(s.drop_last(), (n - 1) as nat);
        }
    }
}

proof fn lemma_trailing_up_keep_last(s: Seq<HistoryEntryView>, n: nat)
    ensures
        trailing_raw(keep_last(s, n), CheckStatus::Up) == if trailing_raw(s, CheckStatus::Up) < n { trailing_raw(s, CheckStatus::Up) } else { n },
    decreases s.len(),
{
    lemma_trailing_bounds(s, CheckStatus::Up);
    if s.len() > n {
        let t = s.skip(s.len() - n);
        if n > 0 {
            assert(t.last() == s.last());
            assert(t.drop_last() =~= keep_last(s.drop_last(), (n - 1) as nat));
            lemma_trailing_up_keep_last(s.drop_last(), (n - 1) as nat);
        }
    }
}

/// Recording a failing result that ran extends the check's failure streak
/// by one (up to the history limit); recording an UP result that ran resets
/// it to zero and extends the UP streak by one (up to the limit). This is
/// what lets consecutive failures reach `fail_after` and consecutive
/// recoveries reach `recover_after`.
pub proof fn law_streaks_after_update(s: AppState, r: CheckResultView)
    requires
        s.inv(),
        s.effective_of(r).last_run is Some,
    ensures
        r.status != CheckStatus::Up ==> trailing_non_up(s.next_history(r))
            == if trailing_non_up(s.history_of(r.name)) + 1 < s.history_limit() { trailing_non_up(s.history_of(r.name)) + 1 } else { s.history_limit() },
        r.status == CheckStatus::Up ==> trailing_non_up(s.next_history(r)) == 0,
        r.status == CheckStatus::Up ==> trailing_raw(s.next_history(r), CheckStatus::Up)
            == if trailing_raw(s.history_of(r.name), CheckStatus::Up) + 1 < s.history_limit() { trailing_raw(s.history_of(r.name), CheckStatus::Up) + 1 } else { s.history_limit() },
{
    let h = s.history_of(r.name);
    let eff = s.effective_of(r);
    let full = h.push(entry_for(r.status, eff, eff.last_run.unwrap()));
    assert(full.drop_last() =~= h);
    lemma_trailing_non_up_keep_last(full, s.history_limit());
    lemma_trailing_up_keep_last(full, s.history_limit());
    if r.status == CheckStatus::Up {
        law_history_keeps_newest_any(full, s.history_limit());
    }
}

proof fn law_history_keeps_newest_any(full: Seq<HistoryEntryView>, n: nat)
    requires
        full.len() > 0,
        full.last().raw_status == CheckStatus::Up,
    ensures
        trailing_non_up(keep_last(full, n)) == 0,
{
    lemma_trailing_non_up_keep_last(full, n);
}

/// Updates keep every result under its own name and the reported result of
/// the updated check is the debounced one.
pub proof fn law_update_stores_effective(s: AppState, r: CheckResultView)
    requires
        s.inv(),
    ensures
        s.effective_of(r).name == r.name,
{
}

/// A status-change event comes exactly when the check had a result that had
/// run and the reported status differs from it; it names both statuses.
pub proof fn law_event_iff_status_changed(
    prev: Option<CheckResultView>,
    eff: CheckResultView,
    groups: Seq<Seq<char>>,
)
    ensures
        change_event(prev, eff, groups) is Some <==> (prev matches Some(p) && p.last_run is Some && p.status != eff.status),
        change_event(prev, eff, groups) matches Some(e) ==> e.old_status != e.new_status && e.new_status == eff.status,
{
}

proof fn lemma_summary_partition(s: Seq<CheckResultView>)
    ensures
        with_status(s, CheckStatus::Up).len() + with_status(s, CheckStatus::Warn).len() + with_status(s, CheckStatus::Down).len() == s.len(),
        s.filter(failed_pred()).len() + s.filter(warned_pred()).len()
            == with_status(s, CheckStatus::Warn).len() + with_status(s, CheckStatus::Down).len(),
        s.filter(failed_pred()).len() <= with_status(s, CheckStatus::Down).len(),
    decreases s.len(),
{
    if s.len() > 0 {
        let t = s.drop_last();
        let x = s.last();
        assert(s =~= t.push(x));
        lemma_summary_partition(t);
        t.lemma_filter_push(x, status_pred(CheckStatus::Up));
        t.lemma_filter_push(x, status_pred(CheckStatus::Warn));
        t.lemma_filter_push(x, status_pred(CheckStatus::Down));
        t.lemma_filter_push(x, failed_pred());
        t.lemma_filter_push(x, warned_pred());
    } else {
        assert(with_status(s, CheckStatus::Up) =~= Seq::<CheckResultView>::empty());
        assert(with_status(s, CheckStatus::Warn) =~= Seq::<CheckResultView>::empty());
        assert(with_status(s, CheckStatus::Down) =~= Seq::<CheckResultView>::empty());
        assert(s.filter(failed_pred()) =~= Seq::<CheckResultView>::empty());
        assert(s.filter(warned_pred()) =~= Seq::<CheckResultView>::empty());
    }
}

/// Every result is counted exactly once as UP, WARN or DOWN; every WARN or
/// DOWN result is listed exactly once, as failing (critical DOWN) or as
/// warning; and an aggregate is healthy exactly when nothing is listed as
/// failing, so a non-critical check never fails it.
pub proof fn law_aggregate_partition(s: Seq<CheckResultView>)
    ensures
        with_status(s, CheckStatus::Up).len() + with_status(s, CheckStatus::Warn).len() + with_status(s, CheckStatus::Down).len() == s.len(),
        s.filter(failed_pred()).len() + s.filter(warned_pred()).len()
            == with_status(s, CheckStatus::Warn).len() + with_status(s, CheckStatus::Down).len(),
        aggregate_ok(s) <==> (forall|i: int| 0 <= i < s.len() ==> !(#[trigger] s[i].status == CheckStatus::Down && s[i].critical)),
{
    lemma_summary_partition(s);
    if aggregate_ok(s) {
        assert forall|i: int| 0 <= i < s.len() implies !(#[trigger] s[i].status == CheckStatus::Down && s[i].critical) by {
            if s[i].status == CheckStatus::Down && s[i].critical {
                s.lemma_filter_contains(failed_pred(), i);
                assert(s.filter(failed_pred()).contains(s[i]));
            }
        }
    } else {
        let f = s.filter(failed_pred());
        assert(f.len() > 0);
        s.lemma_filter_pred(failed_pred(), 0);
        assert(f.contains(f[0]));
        s.lemma_filter_contains_rev(failed_pred(), f[0]);
        assert(s.contains(f[0]));
        let i = choose|i: int| 0 <= i < s.len() && s[i] == f[0];
        assert(s[i].status == CheckStatus::Down && s[i].critical);
    }
}


/// The names of a sequence of results.
pub open spec fn result_names(s: Seq<CheckResultView>) -> Seq<Seq<char>> {
    s.map_values(|r: CheckResultView| r.name)
}

fn name_insertion_point(out: &Vec<CheckResult>, x: &str) -> (p: usize)
    requires
        sorted(result_names(result_views(out@))),
    ensures
        p <= out@.len(),
        forall|j: int| 0 <= j < p ==> !crate::order::seq_lt(x@, #[trigger] out@[j].name@),
        p < out@.len() ==> crate::order::seq_lt(x@, out@[p as int].name@),
{
    let mut p: usize = 0;
    while p < out.len()
        invariant
            p <= out@.len(),
            forall|j: int| 0 <= j < p ==> !crate::order::seq_lt(x@, #[trigger] out@[j].name@),
        decreases out@.len() - p,
    {
        if crate::order::str_lt(x, out[p].name.as_str()) {
            return p;
        }
        p = p + 1;
    }
    p
}

/// The results ordered by name (stably), as `sort_by` on names does.
pub fn sort_results_by_name(v: &Vec<CheckResult>) -> (r: Vec<CheckResult>)
    ensures
        sorted(result_names(result_views(r@))),
        result_views(r@).to_multiset() == result_views(v@).to_multiset(),
        r@.len() == v@.len(),
{
    let mut out: Vec<CheckResult> = Vec::new();
    let n = v.len();
    let mut i: usize = 0;
    proof {
        assert(result_views(v@.take(0)) =~= Seq::<CheckResultView>::empty());
        assert(result_names(result_views(out@)) =~= Seq::<Seq<char>>::empty());
        assert(result_views(out@) =~= Seq::<CheckResultView>::empty());
    }
    while i < n
        invariant
            n == v@.len(),
            i <= n,
            out@.len() == i,
            sorted(result_names(result_views(out@))),
            result_views(out@).to_multiset() == result_views(v@.take(i as int)).to_multiset(),
        decreases n - i,
    {
        let x = v[i].duplicate();
        let p = name_insertion_point(&out, x.name.as_str());
        let ghost before = out@;
        proof {
            let nm = result_names(result_views(before));
            assert forall|j: int| 0 <= j < p implies !crate::order::seq_lt(x@.name, #[trigger] nm[j]) by {
                assert(nm[j] == before[j].name@);
            }
            if p < before.len() {
                assert(nm[p as int] == before[p as int].name@);
            }
            crate::order::lemma_sorted_insert_pub(nm, p as int, x@.name);
            crate::order::lemma_multiset_insert_any(result_views(before), p as int, x@);
        }
        out.insert(p, x);
        proof {
            assert(result_views(out@) =~= result_views(before).insert(p as int, x@));
            assert(result_names(result_views(out@)) =~= result_names(result_views(before)).insert(p as int, x@.name));
            assert(v@.take(i + 1) =~= v@.take(i as int).push(v@[i as int]));
            assert(result_views(v@.take(i + 1)) =~= result_views(v@.take(i as int)).push(x@));
            result_views(v@.take(i as int)).to_multiset_ensures();
        }
        i = i + 1;
    }
    proof { assert(v@.take(n as int) =~= v@); }
    out
}


/// The value of the last entry whose sanitized key is `k`, if any entry has it.
pub open spec fn last_value_for(entries: Seq<(String, String)>, k: Seq<char>) -> Option<Seq<char>>
    decreases entries.len(),
{
    if entries.len() == 0 {
        None
    } else if sanitized_name(entries.last().0@) == k {
        Some(entries.last().1@)
    } else {
        last_value_for(entries.drop_last(), k)
    }
}

/// Check-level labels win: after merging, the last per-check entry with a
/// given sanitized key decides that key's value, and every key that no entry
/// names keeps its global value (or stays absent).
pub proof fn law_check_labels_win(global: Map<Seq<char>, Seq<char>>, entries: Seq<(String, String)>, k: Seq<char>)
    ensures
        match last_value_for(entries, k) {
            Some(v) => merge_entries(global, entries).contains_key(k) && merge_entries(global, entries)[k] == v,
            None => merge_entries(global, entries).contains_key(k) == global.contains_key(k)
                && (global.contains_key(k) ==> merge_entries(global, entries)[k] == global[k]),
        },
    decreases entries.len(),
{
    if entries.len() > 0 {
        law_check_labels_win(global, entries.drop_last(), k);
    }
}

/// Only a failure after an UP report is held back: when the previous report
/// was not UP (or there is none) and the raw result is not UP, the raw
/// result is reported exactly as it came, status and error included, for
/// every policy and history.
pub proof fn law_failure_after_failure_reported_as_is(
    prev: Option<CheckResultView>,
    hist: Seq<HistoryEntryView>,
    policy: DebouncePolicyConfig,
    cur: CheckResultView,
)
    requires
        !(prev matches Some(p) && p.status == CheckStatus::Up),
        cur.status != CheckStatus::Up,
    ensures
        debounced(prev, hist, policy, cur) == cur,
        debounced(prev, hist, policy, cur).status == cur.status,
        debounced(prev, hist, policy, cur).error == cur.error,
{
}

/// A reported status is always either the raw status or the previously
/// reported one, or UP while a failure after UP is held back: debouncing
/// never invents a status.
pub proof fn law_debounce_status_origin(
    prev: Option<CheckResultView>,
    hist: Seq<HistoryEntryView>,
    policy: DebouncePolicyConfig,
    cur: CheckResultView,
)
    ensures
        debounced(prev, hist, policy, cur).status == cur.status
            || (prev matches Some(p) && debounced(prev, hist, policy, cur).status == p.status),
        cur.status != CheckStatus::Up && debounced(prev, hist, policy, cur).status != cur.status
            ==> debounced(prev, hist, policy, cur).status == CheckStatus::Up
                && (prev matches Some(p) && p.status == CheckStatus::Up),
{
}

} // verus!

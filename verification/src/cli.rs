//! The one-shot command line modes: which checks run, what counts as
//! failure, and the UI address printed or opened.

use vstd::prelude::*;
use crate::config::{Config, names, contains_name};
use crate::state::{CheckResultView, CheckStatus};
use crate::text::append_str;

verus! {

/// The first part of `s` before its last `:` and the part after it (the
/// whole of `s` when it has no `:`), as `rsplitn(2, ':')` splits.
pub open spec fn last_colon(s: Seq<char>) -> int
    decreases s.len(),
{
    if s.len() == 0 {
        -1
    } else if s.last() == ':' {
        s.len() - 1
    } else {
        last_colon(s.drop_last())
    }
}

/// The host shown for a bind host: `localhost` for wildcard and loopback
/// addresses.
pub open spec fn display_host(h: Seq<char>) -> Seq<char> {
    if h == "0.0.0.0"@ || h == "127.0.0.1"@ || h == "::"@ || h == "[::]"@ { "localhost"@ } else { h }
}

/// The UI URL for a bind address `host:port`: `http://host:port/ui`.
pub open spec fn ui_url_spec(bind: Seq<char>) -> Seq<char> {
    let c = last_colon(bind);
    let port = bind.skip(c + 1);
    let host = if c >= 0 { display_host(bind.take(c)) } else { "localhost"@ };
    "http://"@ + host + ":"@ + port + "/ui"@
}

fn literal(s: &str) -> (r: String)
    ensures
        r@ == s@,
{
    let mut r = String::new();
    append_str(&mut r, s);
    proof { assert(r@ =~= s@); }
    r
}

/// The UI URL for a bind address.
pub fn ui_url_from_bind(bind_addr: &str) -> (r: Option<String>)
    ensures
        r matches Some(u) && u@ == ui_url_spec(bind_addr@),
{
    let v = crate::text::chars_of(bind_addr);
    let n = v.len();
    let mut i = n;
    proof { assert(bind_addr@.take(n as int) =~= bind_addr@); }
    while i > 0 && v[i - 1] != ':'
        invariant
            n == bind_addr@.len(),
            v@ == bind_addr@,
            i <= n,
            last_colon(bind_addr@) == last_colon(bind_addr@.take(i as int)),
            forall|j: int| i <= j < n ==> bind_addr@[j] != ':',
        decreases i,
    {
        proof { assert(bind_addr@.take(i as int).drop_last() =~= bind_addr@.take(i - 1)); }
        i = i - 1;
    }
    proof {
        if i > 0 {
            assert(bind_addr@.take(i as int).last() == ':');
        }
    }
    let port = crate::text::string_from(&v, i, n);
    let host_text: String = if i == 0 {
        literal("localhost")
    } else {
        let h = crate::text::string_from(&v, 0, i - 1);
        if crate::strmap::str_eq(h.as_str(), "0.0.0.0") || crate::strmap::str_eq(h.as_str(), "127.0.0.1")
            || crate::strmap::str_eq(h.as_str(), "::") || crate::strmap::str_eq(h.as_str(), "[::]") {
            literal("localhost")
        } else {
            h
        }
    };
    proof {
        assert(bind_addr@.skip(last_colon(bind_addr@) + 1) =~= v@.subrange(i as int, n as int));
        if i > 0 {
            assert(bind_addr@.take(last_colon(bind_addr@)) =~= v@.subrange(0, i - 1));
        }
    }
    let mut url = literal("http://");
    append_str(&mut url, host_text.as_str());
    append_str(&mut url, ":");
    append_str(&mut url, port.as_str());
    append_str(&mut url, "/ui");
    Some(url)
}

/// The CLI's name of a status.
pub open spec fn status_label(s: CheckStatus) -> Seq<char> {
    match s {
        CheckStatus::Up => "UP"@,
        CheckStatus::Warn => "WARN"@,
        CheckStatus::Down => "DOWN"@,
    }
}

/// The CLI's name of a status.
pub fn status_text(status: CheckStatus) -> (r: &'static str)
    ensures
        r@ == status_label(status),
{
    match status {
        CheckStatus::Up => "UP",
        CheckStatus::Warn => "WARN",
        CheckStatus::Down => "DOWN",
    }
}

/// Why a one-shot run has nothing to run.
pub enum SelectError {
    /// No check has this name.
    UnknownCheck(String),
    /// No group has this name.
    UnknownGroup(String),
    /// The group has no checks.
    EmptyGroup(String),
}

/// The indices of the checks a one-shot run runs: the first check with the
/// requested name, the checks of the requested (defined) group, or all
/// checks.
pub open spec fn selection_ok(cfg: Config, check: Option<Seq<char>>, group: Option<Seq<char>>, r: Seq<usize>) -> bool {
    match check {
        Some(c) => r.len() == 1 && r[0] < cfg.checks@.len() && cfg.checks@[r[0] as int].name@ == c
            && forall|j: int| 0 <= j < r[0] ==> (#[trigger] cfg.checks@[j]).name@ != c,
        None => match group {
            Some(g) => r.len() > 0
                && cfg.groups@.contains_key(g)
                && (forall|k: int| 0 <= k < r.len() ==> #[trigger] r[k] < cfg.checks@.len())
                && (forall|k: int, l: int| 0 <= k < l < r.len() ==> #[trigger] r[k] < #[trigger] r[l])
                && (forall|j: int| 0 <= j < cfg.checks@.len() ==>
                    (names((#[trigger] cfg.checks@[j]).groups@).contains(g) <==> r.contains(j as usize))),
            None => r == Seq::new(cfg.checks@.len(), |i: int| i as usize),
        },
    }
}

/// Chooses the checks of a one-shot run.
#[verifier::loop_isolation(false)]
pub fn select_checks(cfg: &Config, check: Option<&str>, group: Option<&str>) -> (r: Result<Vec<usize>, SelectError>)
    ensures
        match r {
            Ok(v) => selection_ok(*cfg, crate::healthz::opt_str(check), crate::healthz::opt_str(group), v@),
            Err(SelectError::UnknownCheck(c)) => check matches Some(cc) && c@ == cc@
                && forall|j: int| 0 <= j < cfg.checks@.len() ==> (#[trigger] cfg.checks@[j]).name@ != cc@,
            Err(SelectError::UnknownGroup(g)) => check is None && (group matches Some(gg) && g@ == gg@
                && !cfg.groups@.contains_key(gg@)),
            Err(SelectError::EmptyGroup(g)) => check is None && (group matches Some(gg) && g@ == gg@
                && cfg.groups@.contains_key(gg@)
                && forall|j: int| 0 <= j < cfg.checks@.len() ==> !names((#[trigger] cfg.checks@[j]).groups@).contains(gg@)),
        },
{
    let n = cfg.checks.len();
    if let Some(c) = check {
        let mut i: usize = 0;
        while i < n
            invariant
                n == cfg.checks@.len(),
                i <= n,
                forall|j: int| 0 <= j < i ==> (#[trigger] cfg.checks@[j]).name@ != c@,
            decreases n - i,
        {
            if crate::strmap::str_eq(cfg.checks[i].name.as_str(), c) {
                let mut v: Vec<usize> = Vec::new();
                v.push(i);
                proof { assert(v@[0] == i); }
                return Ok(v);
            }
            i = i + 1;
        }
        return Err(SelectError::UnknownCheck(c.to_string()));
    }
    if let Some(g) = group {
        if !cfg.groups.contains_key(g) {
            return Err(SelectError::UnknownGroup(g.to_string()));
        }
        let mut v: Vec<usize> = Vec::new();
        let mut i: usize = 0;
        while i < n
            invariant
                n == cfg.checks@.len(),
                i <= n,
                forall|k: int| 0 <= k < v@.len() ==> #[trigger] v@[k] < i,
                forall|k: int, l: int| 0 <= k < l < v@.len() ==> #[trigger] v@[k] < #[trigger] v@[l],
                forall|j: int| 0 <= j < i ==> (names((#[trigger] cfg.checks@[j]).groups@).contains(g@) <==> v@.contains(j as usize)),
            decreases n - i,
        {
            let ghost before = v@;
            if contains_name(&cfg.checks[i].groups, g) {
                v.push(i);
            }
            proof {
                assert forall|j: int| 0 <= j < i + 1 implies (names((#[trigger] cfg.checks@[j]).groups@).contains(g@) <==> v@.contains(j as usize)) by {
                    if j < i {
                        if v@.contains(j as usize) {
                            let k = choose|k: int| 0 <= k < v@.len() && v@[k] == j as usize;
                            if k < before.len() {
                                assert(before[k] == j as usize);
                            }
                        }
                        if before.contains(j as usize) {
                            let k = choose|k: int| 0 <= k < before.len() && before[k] == j as usize;
                            assert(v@[k] == j as usize);
                        }
                    } else {
                        if names(cfg.checks@[j].groups@).contains(g@) {
                            assert(v@[v@.len() - 1] == i);
                        } else if v@.contains(j as usize) {
                            let k = choose|k: int| 0 <= k < v@.len() && v@[k] == j as usize;
                            assert(before[k] < i);
                        }
                    }
                }
            }
            i = i + 1;
        }
        if v.len() == 0 {
            proof {
                assert forall|j: int| 0 <= j < cfg.checks@.len() implies !names((#[trigger] cfg.checks@[j]).groups@).contains(g@) by {
                    assert(!v@.contains(j as usize));
                }
            }
            return Err(SelectError::EmptyGroup(g.to_string()));
        }
        return Ok(v);
    }
    let mut v: Vec<usize> = Vec::new();
    let mut i: usize = 0;
    while i < n
        invariant
            n == cfg.checks@.len(),
            i <= n,
            v@ == Seq::new(i as nat, |k: int| k as usize),
        decreases n - i,
    {
        v.push(i);
        proof { assert(v@ =~= Seq::new((i + 1) as nat, |k: int| k as usize)); }
        i = i + 1;
    }
    Ok(v)
}

impl SelectError {
    /// The text of the error, as the CLI reports it.
    pub open spec fn message_spec(&self) -> Seq<char> {
        match self {
            SelectError::UnknownCheck(c) => "unknown check '"@ + c@ + "'"@,
            SelectError::UnknownGroup(g) => "unknown group '"@ + g@ + "'"@,
            SelectError::EmptyGroup(g) => "group '"@ + g@ + "' does not contain any checks"@,
        }
    }

    /// Renders the error.
    pub fn message(&self) -> (s: String)
        ensures
            s@ == self.message_spec(),
    {
        match self {
            SelectError::UnknownCheck(c) => {
                let mut s = literal("unknown check '");
                append_str(&mut s, c.as_str());
                append_str(&mut s, "'");
                s
            },
            SelectError::UnknownGroup(g) => {
                let mut s = literal("unknown group '");
                append_str(&mut s, g.as_str());
                append_str(&mut s, "'");
                s
            },
            SelectError::EmptyGroup(g) => {
                let mut s = literal("group '");
                append_str(&mut s, g.as_str());
                append_str(&mut s, "' does not contain any checks");
                s
            },
        }
    }
}

/// A single-check run fails exactly when the check is DOWN and critical.
pub open spec fn check_run_failed(r: CheckResultView) -> bool {
    r.status == CheckStatus::Down && r.critical
}

/// Whether a single-check run failed.
pub fn single_check_failed(r: &crate::state::CheckResult) -> (b: bool)
    ensures
        b == check_run_failed(r@),
{
    r.status == CheckStatus::Down && r.critical
}

/// The exit code of a one-shot run: 0 on success, 1 on failure.
pub fn exit_code(success: bool) -> (c: i32)
    ensures
        c == if success { 0i32 } else { 1i32 },
{
    if success { 0 } else { 1 }
}

} // verus!

verus! {

/// The aggregate line of the text output.
pub fn aggregate_text(ok: bool) -> (r: &'static str)
    ensures
        r@ == if ok { "OK"@ } else { "FAILED"@ },
{
    if ok { "OK" } else { "FAILED" }
}

/// `summary: total=T, up=U, warn=W, down=D, critical_down=C`.
pub open spec fn summary_line(s: crate::state::AggregateSummary) -> Seq<char> {
    "summary: total="@ + crate::text::decimal(s.total as nat) + ", up="@ + crate::text::decimal(s.up as nat)
        + ", warn="@ + crate::text::decimal(s.warn as nat) + ", down="@ + crate::text::decimal(s.down as nat)
        + ", critical_down="@ + crate::text::decimal(s.critical_down as nat)
}

/// Renders the summary line.
pub fn summary_text(s: &crate::state::AggregateSummary) -> (r: String)
    ensures
        r@ == summary_line(*s),
{
    let mut r = literal("summary: total=");
    append_str(&mut r, crate::text::u64_text(s.total as u64).as_str());
    append_str(&mut r, ", up=");
    append_str(&mut r, crate::text::u64_text(s.up as u64).as_str());
    append_str(&mut r, ", warn=");
    append_str(&mut r, crate::text::u64_text(s.warn as u64).as_str());
    append_str(&mut r, ", down=");
    append_str(&mut r, crate::text::u64_text(s.down as u64).as_str());
    append_str(&mut r, ", critical_down=");
    append_str(&mut r, crate::text::u64_text(s.critical_down as u64).as_str());
    r
}

/// The line of one problem check: `  - name: error`, or `  - name` without
/// an error.
pub open spec fn problem_line(r: CheckResultView) -> Seq<char> {
    match r.error {
        Some(e) => "  - "@ + r.name + ": "@ + e,
        None => "  - "@ + r.name,
    }
}

/// The lines listing problem checks under a label: nothing when there are
/// none, else `label:` and one line per check.
pub fn problem_lines(label: &str, checks: &Vec<crate::state::CheckResult>) -> (r: Vec<String>)
    ensures
        checks@.len() == 0 ==> r@.len() == 0,
        checks@.len() > 0 ==> r@.len() == checks@.len() + 1 && r@[0]@ == label@ + ":"@
            && forall|i: int| 0 <= i < checks@.len() ==> (#[trigger] r@[i + 1])@ == problem_line(checks@[i]@),
{
    let mut out: Vec<String> = Vec::new();
    let n = checks.len();
    if n == 0 {
        return out;
    }
    let mut head = label.to_string();
    append_str(&mut head, ":");
    out.push(head);
    let mut i: usize = 0;
    while i < n
        invariant
            n == checks@.len(),
            i <= n,
            out@.len() == i + 1,
            out@[0]@ == label@ + ":"@,
            forall|q: int| 0 <= q < i ==> (#[trigger] out@[q + 1])@ == problem_line(checks@[q]@),
        decreases n - i,
    {
        let c = &checks[i];
        let mut line = literal("  - ");
        append_str(&mut line, c.name.as_str());
        match &c.error {
            Some(e) => {
                append_str(&mut line, ": ");
                append_str(&mut line, e.as_str());
            },
            None => {},
        }
        let ghost before = out@;
        out.push(line);
        proof {
            assert forall|q: int| 0 <= q < i + 1 implies (#[trigger] out@[q + 1])@ == problem_line(checks@[q]@) by {
                if q < i {
                    assert(out@[q + 1] == before[q + 1]);
                }
            }
        }
        i = i + 1;
    }
    out
}

/// `true` or `false`.
pub open spec fn bool_text(b: bool) -> Seq<char> {
    if b { "true"@ } else { "false"@ }
}

/// The text output of a single-check run: name, status, criticality,
/// duration (`-` when unknown) and, when there is one, the error.
pub open spec fn single_check_text(r: CheckResultView) -> Seq<Seq<char>> {
    let head = seq![
        "check: "@ + r.name,
        "status: "@ + status_label(r.status),
        "critical: "@ + bool_text(r.critical),
        "duration: "@ + match r.duration {
            Some(d) => crate::timefmt::humantime_text(d),
            None => "-"@,
        },
    ];
    match r.error {
        Some(e) => head.push("error: "@ + e),
        None => head,
    }
}

/// Renders the text output of a single-check run, one string per line.
pub fn single_check_lines(r: &crate::state::CheckResult) -> (out: Vec<String>)
    ensures
        out@.len() == single_check_text(r@).len(),
        forall|i: int| 0 <= i < out@.len() ==> (#[trigger] out@[i])@ == single_check_text(r@)[i],
{
    let mut out: Vec<String> = Vec::new();
    let mut l0 = literal("check: ");
    append_str(&mut l0, r.name.as_str());
    out.push(l0);
    let mut l1 = literal("status: ");
    append_str(&mut l1, status_text(r.status));
    out.push(l1);
    let mut l2 = literal("critical: ");
    append_str(&mut l2, if r.critical { "true" } else { "false" });
    proof { reveal_strlit("true"); reveal_strlit("false"); }
    out.push(l2);
    let mut l3 = literal("duration: ");
    match r.duration {
        Some(d) => {
            let t = crate::timefmt::format_duration(d);
            append_str(&mut l3, t.as_str());
        },
        None => {
            append_str(&mut l3, "-");
        },
    }
    out.push(l3);
    match &r.error {
        Some(e) => {
            let mut l4 = literal("error: ");
            append_str(&mut l4, e.as_str());
            out.push(l4);
        },
        None => {},
    }
    proof {
        let t = single_check_text(r@);
        assert(out@.len() == t.len());
        assert forall|i: int| 0 <= i < out@.len() implies (#[trigger] out@[i])@ == t[i] by {}
    }
    out
}

} // verus!

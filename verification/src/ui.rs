//! The model behind the HTML UI and its JSON snapshot: rows per check,
//! escaped popover HTML, scope selection and the group and profile pickers.

use vstd::prelude::*;
use crate::order::{sort_strings, sorted, strictly_sorted, views};
use crate::state::{AppState, CheckResult, CheckResultView, CheckStatus, opt_view, result_names, result_views};
use crate::strmap::StrMap;
use crate::text::{append_str, chars_of, push_char, trim, trim_str};
use crate::timefmt::{fmt_rfc3339_opt, fmt_rfc3339_or_dash, opt_wall_rfc3339, or_dash};

verus! {

/// The HTML escape of one character.
pub open spec fn escape_char(c: char) -> Seq<char> {
    if c == '&' {
        "&amp;"@
    } else if c == '<' {
        "&lt;"@
    } else if c == '>' {
        "&gt;"@
    } else if c == '"' {
        "&quot;"@
    } else if c == '\'' {
        "&#39;"@
    } else {
        seq![c]
    }
}

/// `s` with `& < > " '` replaced by their HTML entities.
pub open spec fn escape(s: Seq<char>) -> Seq<char>
    decreases s.len(),
{
    if s.len() == 0 {
        Seq::empty()
    } else {
        escape(s.drop_last()) + escape_char(s.last())
    }
}

/// Whether `t` holds no raw `<`, `>`, `"` or `'`.
pub open spec fn markup_free(t: Seq<char>) -> bool {
    forall|i: int| 0 <= i < t.len() ==> t[i] != '<' && t[i] != '>' && t[i] != '"' && t[i] != '\''
}

/// Escaped text never holds a raw `<`, `>`, `"` or `'`, so it can neither
/// open a tag nor end an attribute value.
pub proof fn law_escape_is_inert(s: Seq<char>)
    ensures
        markup_free(escape(s)),
    decreases s.len(),
{
    if s.len() > 0 {
        law_escape_is_inert(s.drop_last());
        reveal_strlit("&amp;");
        reveal_strlit("&lt;");
        reveal_strlit("&gt;");
        reveal_strlit("&quot;");
        reveal_strlit("&#39;");
        let a = escape(s.drop_last());
        let b = escape_char(s.last());
        assert(markup_free(b));
        assert forall|i: int| 0 <= i < (a + b).len() implies (a + b)[i] != '<' && (a + b)[i] != '>'
            && (a + b)[i] != '"' && (a + b)[i] != '\'' by {
            if i < a.len() {
                assert((a + b)[i] == a[i]);
            } else {
                assert((a + b)[i] == b[i - a.len()]);
            }
        }
    }
}

/// Escapes text for HTML.
pub fn html_escape(s: &str) -> (r: String)
    ensures
        r@ == escape(s@),
{
    let v = chars_of(s);
    let n = v.len();
    let mut out = String::new();
    let mut i: usize = 0;
    proof { assert(s@.take(0) =~= Seq::<char>::empty()); }
    while i < n
        invariant
            n == s@.len(),
            v@ == s@,
            i <= n,
            out@ == escape(s@.take(i as int)),
        decreases n - i,
    {
        let c = v[i];
        if c == '&' {
            append_str(&mut out, "&amp;");
        } else if c == '<' {
            append_str(&mut out, "&lt;");
        } else if c == '>' {
            append_str(&mut out, "&gt;");
        } else if c == '"' {
            append_str(&mut out, "&quot;");
        } else if c == '\'' {
            append_str(&mut out, "&#39;");
        } else {
            push_char(&mut out, c);
            proof { assert(seq![c] =~= Seq::<char>::empty().push(c)); }
        }
        proof {
            let t = s@.take(i + 1);
            assert(t.drop_last() =~= s@.take(i as int));
            assert(t.last() == c);
            assert(out@ =~= escape(s@.take(i as int)) + escape_char(c));
        }
        i = i + 1;
    }
    proof { assert(s@.take(n as int) =~= s@); }
    out
}

/// The UI's name of a status.
pub open spec fn status_name(s: CheckStatus) -> Seq<char> {
    match s {
        CheckStatus::Up => "up"@,
        CheckStatus::Warn => "warn"@,
        CheckStatus::Down => "down"@,
    }
}

fn literal(s: &str) -> (r: String)
    ensures
        r@ == s@,
{
    let mut r = String::new();
    append_str(&mut r, s);
    proof { assert(r@ =~= s@); }
    r
}

/// The UI's name of a status.
pub fn status_str(s: CheckStatus) -> (r: String)
    ensures
        r@ == status_name(s),
{
    match s {
        CheckStatus::Up => literal("up"),
        CheckStatus::Warn => literal("warn"),
        CheckStatus::Down => literal("down"),
    }
}

/// `key=value` for every label whose value is not blank, in entry order.
pub open spec fn label_pairs(e: Seq<(String, String)>) -> Seq<Seq<char>>
    decreases e.len(),
{
    if e.len() == 0 {
        Seq::empty()
    } else {
        let p = label_pairs(e.drop_last());
        if trim(e.last().1@).len() > 0 {
            p.push(e.last().0@ + "="@ + e.last().1@)
        } else {
            p
        }
    }
}

/// The labels of a result as sorted `key=value` strings, blank values left out.
pub fn labels_to_vec(r: &CheckResult) -> (v: Vec<String>)
    ensures
        sorted(views(v@)),
        views(v@).to_multiset() == label_pairs(r.labels.entries()).to_multiset(),
{
    let n = r.labels.len();
    let mut pairs: Vec<String> = Vec::new();
    let mut i: usize = 0;
    proof { assert(views(pairs@) =~= label_pairs(r.labels.entries().take(0))); }
    while i < n
        invariant
            n == r.labels.entries().len(),
            i <= n,
            views(pairs@) == label_pairs(r.labels.entries().take(i as int)),
        decreases n - i,
    {
        let k = r.labels.key_at(i);
        let val = r.labels.value_at(i);
        let t = trim_str(val.as_str());
        proof {
            let e = r.labels.entries().take(i + 1);
            assert(e.drop_last() =~= r.labels.entries().take(i as int));
        }
        if t.unicode_len() > 0 {
            let mut p = k.clone();
            append_str(&mut p, "=");
            append_str(&mut p, val.as_str());
            let ghost before = pairs@;
            pairs.push(p);
            proof { assert(views(pairs@) =~= views(before).push(p@)); }
        }
        i = i + 1;
    }
    proof { assert(r.labels.entries().take(n as int) =~= r.labels.entries()); }
    sort_strings(&pairs)
}

/// The popover list of lines: one escaped `<div>- line</div>` per line.
pub open spec fn popover_lines(ps: Seq<Seq<char>>) -> Seq<char>
    decreases ps.len(),
{
    if ps.len() == 0 {
        Seq::empty()
    } else {
        popover_lines(ps.drop_last()) + "<div>- "@ + escape(ps.last()) + "</div>"@
    }
}

/// The popover HTML of some lines: empty for no lines.
pub open spec fn popover_html(ps: Seq<Seq<char>>) -> Seq<char> {
    if ps.len() == 0 {
        Seq::empty()
    } else {
        "<div class='hc-popover-lines'>"@ + popover_lines(ps) + "</div>"@
    }
}

/// The popover HTML of a result's labels.
pub fn labels_to_popover_html(r: &CheckResult) -> (h: String)
    ensures
        exists|ps: Seq<Seq<char>>| sorted(ps) && ps.to_multiset() == label_pairs(r.labels.entries()).to_multiset()
            && h@ == popover_html(ps),
{
    let pairs = labels_to_vec(r);
    let n = pairs.len();
    if n == 0 {
        let h = String::new();
        proof { assert(h@ == popover_html(views(pairs@))); }
        return h;
    }
    let mut out = literal("<div class='hc-popover-lines'>");
    let mut i: usize = 0;
    proof { assert(out@ =~= "<div class='hc-popover-lines'>"@ + popover_lines(views(pairs@).take(0))); }
    while i < n
        invariant
            n == pairs@.len(),
            i <= n,
            out@ == "<div class='hc-popover-lines'>"@ + popover_lines(views(pairs@).take(i as int)),
        decreases n - i,
    {
        append_str(&mut out, "<div>- ");
        let esc = html_escape(pairs[i].as_str());
        append_str(&mut out, esc.as_str());
        append_str(&mut out, "</div>");
        proof {
            let t = views(pairs@).take(i + 1);
            assert(t.drop_last() =~= views(pairs@).take(i as int));
            assert(t.last() == pairs@[i as int]@);
            assert(out@ =~= "<div class='hc-popover-lines'>"@ + popover_lines(t));
        }
        i = i + 1;
    }
    append_str(&mut out, "</div>");
    proof {
        assert(views(pairs@).take(n as int) =~= views(pairs@));
        assert(out@ =~= popover_html(views(pairs@)));
    }
    out
}

/// Line breaks as HTML: `\r\n` and `\n` each become `<br>`.
pub open spec fn newlines_to_br(s: Seq<char>) -> Seq<char>
    decreases s.len(),
{
    if s.len() == 0 {
        Seq::empty()
    } else if s.len() >= 2 && s[0] == '\r' && s[1] == '\n' {
        "<br>"@ + newlines_to_br(s.skip(2))
    } else if s[0] == '\n' {
        "<br>"@ + newlines_to_br(s.skip(1))
    } else {
        seq![s[0]] + newlines_to_br(s.skip(1))
    }
}

/// The popover HTML of an error: empty for a blank error, else the escaped
/// text with line breaks as `<br>` in a `hc-popover-lines` div.
pub open spec fn error_popover_spec(error: Seq<char>) -> Seq<char> {
    if trim(error).len() == 0 {
        Seq::empty()
    } else {
        "<div class='hc-popover-lines'>"@ + newlines_to_br(escape(error)) + "</div>"@
    }
}

fn br_lines(v: &Vec<char>) -> (r: String)
    ensures
        r@ == newlines_to_br(v@),
{
    let n = v.len();
    let mut out = String::new();
    let mut i: usize = 0;
    proof { assert(v@.skip(0) =~= v@); }
    while i < n
        invariant
            n == v@.len(),
            i <= n,
            out@ + newlines_to_br(v@.skip(i as int)) == newlines_to_br(v@),
        decreases n - i,
    {
        let ghost t = v@.skip(i as int);
        let ghost before = out@;
        if i + 1 < n && v[i] == '\r' && v[i + 1] == '\n' {
            append_str(&mut out, "<br>");
            proof {
                assert(t.skip(2) =~= v@.skip(i + 2));
                assert(out@ + newlines_to_br(v@.skip(i + 2)) =~= before + newlines_to_br(t));
            }
            i = i + 2;
        } else if v[i] == '\n' {
            append_str(&mut out, "<br>");
            proof {
                assert(t.skip(1) =~= v@.skip(i + 1));
                assert(out@ + newlines_to_br(v@.skip(i + 1)) =~= before + newlines_to_br(t));
            }
            i = i + 1;
        } else {
            push_char(&mut out, v[i]);
            proof {
                assert(t.skip(1) =~= v@.skip(i + 1));
                assert(out@ + newlines_to_br(v@.skip(i + 1)) =~= before + newlines_to_br(t));
            }
            i = i + 1;
        }
    }
    proof { assert(out@ =~= out@ + newlines_to_br(v@.skip(n as int))); }
    out
}

/// The popover HTML of an error text.
pub fn error_to_popover_html(error: &str) -> (h: String)
    ensures
        h@ == error_popover_spec(error@),
{
    let t = trim_str(error);
    if t.unicode_len() == 0 {
        return String::new();
    }
    let esc = html_escape(error);
    let v = chars_of(esc.as_str());
    let safe = br_lines(&v);
    let mut out = literal("<div class='hc-popover-lines'>");
    append_str(&mut out, safe.as_str());
    append_str(&mut out, "</div>");
    out
}

} // verus!

verus! {

/// One entry of the group picker or the profile picker.
pub struct SelectOption {
    pub value: String,
    pub label: String,
    pub selected: bool,
}

/// The group picker: "All checks (N)" first, then every group, sorted, as
/// "name (count)"; the active one is selected.
pub open spec fn group_options_ok(state: AppState, active: Seq<char>, r: Seq<SelectOption>) -> bool {
    &&& r.len() >= 1
    &&& r[0].value@ == Seq::<char>::empty()
    &&& r[0].label@ == "All checks ("@ + crate::text::decimal(state.check_list().len()) + ")"@
    &&& r[0].selected == (active.len() == 0)
    &&& strictly_sorted(r.skip(1).map_values(|o: SelectOption| o.value@))
    &&& r.skip(1).map_values(|o: SelectOption| o.value@).to_set() == state.group_states().dom()
    &&& forall|i: int| 1 <= i < r.len() ==> {
        let nm = #[trigger] r[i].value@;
        &&& r[i].label@ == nm + " ("@ + crate::text::decimal(state.group_states()[nm].check_set().len()) + ")"@
        &&& r[i].selected == (nm == active)
    }
}

/// Builds the group picker.
pub fn build_group_options(state: &AppState, active_group: &str) -> (r: Vec<SelectOption>)
    requires
        state.inv(),
    ensures
        group_options_ok(*state, active_group@, r@),
{
    let mut options: Vec<SelectOption> = Vec::new();
    let mut label = literal("All checks (");
    let count = u64_text_usize(state.check_configs().len());
    append_str(&mut label, count.as_str());
    append_str(&mut label, ")");
    options.push(SelectOption { value: String::new(), label, selected: active_group.unicode_len() == 0 });
    let names = state.group_names();
    let n = names.len();
    let mut i: usize = 0;
    proof {
        assert(options@.skip(1).map_values(|o: SelectOption| o.value@) =~= views(names@).take(0));
    }
    while i < n
        invariant
            state.inv(),
            n == names@.len(),
            i <= n,
            options@.len() == i + 1,
            options@[0].value@ == Seq::<char>::empty(),
            options@[0].label@ == "All checks ("@ + crate::text::decimal(state.check_list().len()) + ")"@,
            options@[0].selected == (active_group@.len() == 0),
            strictly_sorted(views(names@)),
            views(names@).to_set() == state.group_states().dom(),
            options@.skip(1).map_values(|o: SelectOption| o.value@) == views(names@).take(i as int),
            forall|j: int| 1 <= j < options@.len() ==> {
                let nm = #[trigger] options@[j].value@;
                &&& options@[j].label@ == nm + " ("@ + crate::text::decimal(state.group_states()[nm].check_set().len()) + ")"@
                &&& options@[j].selected == (nm == active_group@)
            },
        decreases n - i,
    {
        let name = &names[i];
        proof {
            assert(views(names@)[i as int] == name@);
            assert(views(names@).to_set().contains(name@));
        }
        let c = match state.group_check_count(name.as_str()) {
            Some(c) => c,
            None => 0,
        };
        let mut label = name.clone();
        append_str(&mut label, " (");
        let cs = u64_text_usize(c);
        append_str(&mut label, cs.as_str());
        append_str(&mut label, ")");
        let selected = crate::strmap::str_eq(name.as_str(), active_group);
        let ghost before = options@;
        options.push(SelectOption { value: name.clone(), label, selected });
        proof {
            assert(options@.skip(1).map_values(|o: SelectOption| o.value@)
                =~= before.skip(1).map_values(|o: SelectOption| o.value@).push(name@));
            assert(views(names@).take(i + 1) =~= views(names@).take(i as int).push(name@));
            assert forall|j: int| 1 <= j < options@.len() implies {
                let nm = #[trigger] options@[j].value@;
                &&& options@[j].label@ == nm + " ("@ + crate::text::decimal(state.group_states()[nm].check_set().len()) + ")"@
                &&& options@[j].selected == (nm == active_group@)
            } by {
                if j < options@.len() - 1 {
                    assert(options@[j] == before[j]);
                }
            }
        }
        i = i + 1;
    }
    proof {
        assert(views(names@).take(n as int) =~= views(names@));
    }
    options
}

/// Decimal text of a `usize`.
pub fn u64_text_usize(n: usize) -> (r: String)
    ensures
        r@ == crate::text::decimal(n as nat),
{
    crate::text::u64_text(n as u64)
}

/// The profile picker: the group's default endpoint first (selected), then
/// every profile the group allows, sorted.
pub open spec fn profile_options_ok(state: AppState, group: Seq<char>, default_profile: Seq<char>, r: Seq<SelectOption>) -> bool {
    &&& r.len() >= 1
    &&& r[0].value@ == "__default__"@
    &&& r[0].label@ == "default endpoint ("@ + default_profile + ")"@
    &&& r[0].selected
    &&& if state.group_states().contains_key(group) {
        &&& strictly_sorted(r.skip(1).map_values(|o: SelectOption| o.value@))
        &&& r.skip(1).map_values(|o: SelectOption| o.value@).to_set() == state.group_states()[group].profile_set()
        &&& forall|i: int| 1 <= i < r.len() ==> (#[trigger] r[i]).label@ == r[i].value@ && !r[i].selected
    } else {
        r.len() == 1
    }
}

/// Builds the profile picker.
pub fn build_profile_options(state: &AppState, group_name: &str, default_profile: &str) -> (r: Vec<SelectOption>)
    requires
        state.inv(),
    ensures
        profile_options_ok(*state, group_name@, default_profile@, r@),
{
    let mut options: Vec<SelectOption> = Vec::new();
    let mut label = literal("default endpoint (");
    append_str(&mut label, default_profile);
    append_str(&mut label, ")");
    options.push(SelectOption { value: literal("__default__"), label, selected: true });
    match state.profile_names_for_group(group_name) {
        Some(names) => {
            let n = names.len();
            let mut i: usize = 0;
            proof {
                assert(options@.skip(1).map_values(|o: SelectOption| o.value@) =~= views(names@).take(0));
            }
            while i < n
                invariant
                    n == names@.len(),
                    i <= n,
                    options@.len() == i + 1,
                    options@[0].value@ == "__default__"@,
                    options@[0].label@ == "default endpoint ("@ + default_profile@ + ")"@,
                    options@[0].selected,
                    options@.skip(1).map_values(|o: SelectOption| o.value@) == views(names@).take(i as int),
                    forall|j: int| 1 <= j < options@.len() ==> (#[trigger] options@[j]).label@ == options@[j].value@ && !options@[j].selected,
                decreases n - i,
            {
                let ghost before = options@;
                options.push(SelectOption { value: names[i].clone(), label: names[i].clone(), selected: false });
                proof {
                    assert(options@.skip(1).map_values(|o: SelectOption| o.value@)
                        =~= before.skip(1).map_values(|o: SelectOption| o.value@).push(names@[i as int]@));
                    assert(views(names@).take(i + 1) =~= views(names@).take(i as int).push(names@[i as int]@));
                    assert forall|j: int| 1 <= j < options@.len() implies (#[trigger] options@[j]).label@ == options@[j].value@ && !options@[j].selected by {
                        if j < options@.len() - 1 {
                            assert(options@[j] == before[j]);
                        }
                    }
                }
                i = i + 1;
            }
            proof { assert(views(names@).take(n as int) =~= views(names@)); }
        },
        None => {},
    }
    options
}

} // verus!

verus! {

/// One check in the UI's JSON snapshot.
pub struct UiCheckSnapshot {
    pub name: String,
    pub status: String,
    pub critical: bool,
    pub last_run: Option<String>,
    pub error: String,
    pub labels: Vec<String>,
}

/// One row of the UI's table.
pub struct CheckRow {
    pub name: String,
    pub status: String,
    pub critical: bool,
    pub last_run: String,
    /// The plain error text, for conditional rendering.
    pub error: String,
    /// Pre-rendered, escaped popover HTML of the error.
    pub error_html: String,
    /// Pre-rendered, escaped popover HTML of the labels.
    pub labels_html: String,
}

/// The error text of a result, empty when it has none.
pub open spec fn error_text(r: CheckResultView) -> Seq<char> {
    match r.error {
        Some(e) => e,
        None => Seq::empty(),
    }
}

/// `s` is the snapshot entry of result `r`.
pub open spec fn snapshot_matches(s: UiCheckSnapshot, r: CheckResult) -> bool {
    &&& s.name@ == r.name@
    &&& s.status@ == status_name(r.status)
    &&& s.critical == r.critical
    &&& opt_view(s.last_run) == opt_wall_rfc3339(r.last_run)
    &&& s.error@ == error_text(r@)
    &&& sorted(views(s.labels@))
    &&& views(s.labels@).to_multiset() == label_pairs(r.labels.entries()).to_multiset()
}

/// `row` is the table row of result `r`.
pub open spec fn row_matches(row: CheckRow, r: CheckResult) -> bool {
    &&& row.name@ == r.name@
    &&& row.status@ == status_name(r.status)
    &&& row.critical == r.critical
    &&& row.last_run@ == or_dash(opt_wall_rfc3339(r.last_run))
    &&& row.error@ == error_text(r@)
    &&& row.error_html@ == error_popover_spec(error_text(r@))
    &&& exists|ps: Seq<Seq<char>>| sorted(ps) && ps.to_multiset() == label_pairs(r.labels.entries()).to_multiset()
        && row.labels_html@ == popover_html(ps)
}

fn error_string(r: &CheckResult) -> (e: String)
    ensures
        e@ == error_text(r@),
{
    match &r.error {
        Some(e) => e.clone(),
        None => String::new(),
    }
}

/// The snapshot entry of a result.
pub fn snapshot_check(r: &CheckResult) -> (s: UiCheckSnapshot)
    ensures
        snapshot_matches(s, *r),
{
    UiCheckSnapshot {
        name: r.name.clone(),
        status: status_str(r.status),
        critical: r.critical,
        last_run: fmt_rfc3339_opt(r.last_run),
        error: error_string(r),
        labels: labels_to_vec(r),
    }
}

/// The table row of a result.
pub fn check_row(r: &CheckResult) -> (row: CheckRow)
    ensures
        row_matches(row, *r),
{
    let error = error_string(r);
    let error_html = error_to_popover_html(error.as_str());
    CheckRow {
        name: r.name.clone(),
        status: status_str(r.status),
        critical: r.critical,
        last_run: fmt_rfc3339_or_dash(r.last_run),
        error_html,
        labels_html: labels_to_popover_html(r),
        error,
    }
}

/// The query of the UI endpoints: the group to scope the view to, if any.
pub struct UiQuery {
    pub group: Option<String>,
}

/// How the page refreshes: the interval as `humantime` renders it, and the
/// interval in whole seconds, at least one.
pub struct RefreshSettings {
    pub text: String,
    pub secs: u64,
}

/// The refresh settings of the UI for this state.
pub fn refresh_settings(state: &AppState) -> (r: RefreshSettings)
    ensures
        r.text@ == crate::timefmt::humantime_text(state.refresh()),
        r.secs == if crate::timefmt::whole_seconds(state.refresh()) < 1 { 1 } else { crate::timefmt::whole_seconds(state.refresh()) },
{
    let d = state.refresh_interval();
    let text = crate::timefmt::format_duration(d);
    let secs = crate::timefmt::duration_as_secs(d);
    RefreshSettings { text, secs: if secs < 1 { 1 } else { secs } }
}

/// Everything the UI page and its snapshot show.
pub struct UiModel {
    pub aggregate_ok: bool,
    pub now: String,
    pub uptime: String,
    pub active_group: String,
    pub active_scope_label: String,
    pub scope_help: String,
    pub scope_health_href: String,
    pub details_href: String,
    pub snapshot_href: String,
    pub scope_default_profile: String,
    pub scope_default_profile_href: String,
    pub has_profile_testing: bool,
    pub group_options: Vec<SelectOption>,
    pub profile_options: Vec<SelectOption>,
    pub summary_total: usize,
    pub summary_up: usize,
    pub summary_warn: usize,
    pub summary_down: usize,
    pub summary_critical_down: usize,
    pub snapshot_checks: Vec<UiCheckSnapshot>,
    pub checks: Vec<CheckRow>,
}

/// The group a UI request selects: the trimmed `group` parameter, if not blank.
pub open spec fn selected_group(requested: Option<Seq<char>>) -> Option<Seq<char>> {
    match requested {
        Some(g) => if trim(g).len() > 0 { Some(trim(g)) } else { None },
        None => None,
    }
}

/// The results a UI request shows.
pub open spec fn scope_results(state: AppState, sel: Option<Seq<char>>) -> Seq<CheckResultView> {
    match sel {
        Some(g) => state.result_list().filter(crate::state::in_group(state.group_states()[g])),
        None => state.result_list(),
    }
}

/// The texts of a UI model for scope `sel`.
pub open spec fn scope_texts_ok(state: AppState, sel: Option<Seq<char>>, m: UiModel) -> bool {
    match sel {
        Some(g) => {
            let dp = match state.group_states()[g].default_name() { Some(p) => p, None => "built-in-json"@ };
            &&& m.active_group@ == g
            &&& m.active_scope_label@ == "Group: "@ + g
            &&& m.scope_health_href@ == "/groups/"@ + g + "/healthz"@
            &&& m.details_href@ == "/groups/"@ + g + "/healthz/details"@
            &&& m.snapshot_href@ == "/ui/api/snapshot?group="@ + g
            &&& m.scope_default_profile@ == dp
            &&& m.scope_default_profile_href@ == "/groups/"@ + g + "/healthz"@
            &&& m.has_profile_testing
            &&& profile_options_ok(state, g, dp, m.profile_options@)
        },
        None => {
            &&& m.active_group@ == Seq::<char>::empty()
            &&& m.active_scope_label@ == "All checks"@
            &&& m.scope_health_href@ == "/healthz/aggregate"@
            &&& m.details_href@ == "/healthz/details"@
            &&& m.snapshot_href@ == "/ui/api/snapshot"@
            &&& m.scope_default_profile@ == Seq::<char>::empty()
            &&& m.scope_default_profile_href@ == Seq::<char>::empty()
            &&& !m.has_profile_testing
            &&& m.profile_options@.len() == 0
        },
    }
}

/// The rows and snapshot entries of `m` are those of the results `rs`, which
/// are the results of `scope` ordered by name.
pub open spec fn rows_for(m: UiModel, scope: Seq<CheckResultView>, rs: Seq<CheckResult>) -> bool {
    &&& rs.len() == m.checks@.len()
    &&& sorted(result_names(result_views(rs)))
    &&& result_views(rs).to_multiset() == scope.to_multiset()
    &&& forall|i: int| 0 <= i < rs.len() ==> row_matches(#[trigger] m.checks@[i], rs[i])
        && snapshot_matches(m.snapshot_checks@[i], rs[i])
}

proof fn lemma_rows_for(m: UiModel, scope: Seq<CheckResultView>, rs: Seq<CheckResult>)
    requires
        rs.len() == m.checks@.len(),
        sorted(result_names(result_views(rs))),
        result_views(rs).to_multiset() == scope.to_multiset(),
        forall|i: int| 0 <= i < rs.len() ==> row_matches(#[trigger] m.checks@[i], rs[i])
            && snapshot_matches(m.snapshot_checks@[i], rs[i]),
    ensures
        rows_for(m, scope, rs),
{
}

/// What the UI model for scope `sel` at time `now` holds: the scope's
/// aggregate and summary, its texts and pickers, and its rows ordered by name.
pub open spec fn ui_model_spec(state: AppState, sel: Option<Seq<char>>, now: Seq<char>, m: UiModel) -> bool {
    let scope = scope_results(state, sel);
    let summary = crate::state::summary_of(scope);
    &&& m.aggregate_ok == crate::state::aggregate_ok(scope)
    &&& m.summary_total == summary.total && m.summary_up == summary.up && m.summary_warn == summary.warn
    &&& m.summary_down == summary.down && m.summary_critical_down == summary.critical_down
    &&& m.now@ == now
    &&& exists|d: std::time::Duration| m.uptime@ == crate::state::uptime_spec(d)
    &&& scope_texts_ok(state, sel, m)
    &&& m.scope_help@ == "Groups are logical health views. One check can belong to more than one group."@
    &&& group_options_ok(state, m.active_group@, m.group_options@)
    &&& m.checks@.len() == m.snapshot_checks@.len()
    &&& exists|rs: Seq<CheckResult>| #[trigger] rows_for(m, scope, rs)
}

/// Results with equal multisets have equal multisets of names.
proof fn lemma_names_multiset(a: Seq<CheckResultView>, b: Seq<CheckResultView>)
    requires
        a.to_multiset() == b.to_multiset(),
    ensures
        result_names(a).to_multiset() == result_names(b).to_multiset(),
    decreases a.len(),
{
    broadcast use vstd::seq_lib::group_to_multiset_ensures;
    if a.len() == 0 {
        assert(b.to_multiset().len() == 0);
        assert(b.len() == 0);
        assert(result_names(a) =~= result_names(b));
    } else {
        let x = a.last();
        let a1 = a.drop_last();
        assert(a1.push(x) =~= a);
        assert(a.to_multiset().count(x) > 0);
        assert(b.contains(x));
        let j = choose|j: int| 0 <= j < b.len() && b[j] == x;
        let b1 = b.remove(j);
        assert(b1.insert(j, x) =~= b);
        crate::order::lemma_multiset_insert_any(b1, j, x);
        assert(a1.to_multiset().insert(x) == b1.to_multiset().insert(x));
        assert(a1.to_multiset() =~= b1.to_multiset()) by {
            assert forall|y: CheckResultView| a1.to_multiset().count(y) == b1.to_multiset().count(y) by {
                assert(a1.to_multiset().insert(x).count(y) == b1.to_multiset().insert(x).count(y));
            }
        }
        lemma_names_multiset(a1, b1);
        assert(result_names(a1).push(x.name) =~= result_names(a));
        assert(result_names(b1).insert(j, x.name) =~= result_names(b));
        crate::order::lemma_multiset_insert_any(result_names(b1), j, x.name);
    }
}

/// The names of the table rows of `m`.
pub open spec fn row_names(m: UiModel) -> Seq<Seq<char>> {
    Seq::new(m.checks@.len(), |i: int| m.checks@[i].name@)
}

/// The UI lists the checks of its scope by name: rows and snapshot entries
/// come in the same order, sorted by name, and their names are those of
/// the scope's results, each as often as it occurs there.
pub proof fn law_ui_rows_follow_scope(state: AppState, sel: Option<Seq<char>>, now: Seq<char>, m: UiModel)
    requires
        ui_model_spec(state, sel, now, m),
    ensures
        m.checks@.len() == m.snapshot_checks@.len(),
        m.checks@.len() == scope_results(state, sel).len(),
        sorted(row_names(m)),
        forall|i: int| 0 <= i < m.checks@.len() ==> (#[trigger] m.checks@[i]).name@ == m.snapshot_checks@[i].name@,
        row_names(m).to_multiset() == result_names(scope_results(state, sel)).to_multiset(),
{
    broadcast use vstd::seq_lib::group_to_multiset_ensures;
    let scope = scope_results(state, sel);
    let rs = choose|rs: Seq<CheckResult>| #[trigger] rows_for(m, scope, rs);
    assert(rows_for(m, scope, rs));
    assert forall|i: int| 0 <= i < rs.len() implies row_names(m)[i] == result_names(result_views(rs))[i] by {
        assert(row_matches(m.checks@[i], rs[i]));
    }
    assert(row_names(m) =~= result_names(result_views(rs)));
    assert forall|i: int| 0 <= i < m.checks@.len() implies (#[trigger] m.checks@[i]).name@ == m.snapshot_checks@[i].name@ by {
        assert(row_matches(m.checks@[i], rs[i]) && snapshot_matches(m.snapshot_checks@[i], rs[i]));
    }
    assert(result_views(rs).to_multiset().len() == scope.to_multiset().len());
    lemma_names_multiset(result_views(rs), scope);
}

/// Builds the UI model for an optional group, at time `now`: none when the
/// selected group does not exist.
#[verifier::rlimit(80)]
#[verifier::spinoff_prover]
pub fn build_ui_model(state: &AppState, requested_group: Option<String>, now: String) -> (r: Option<UiModel>)
    requires
        state.inv(),
    ensures
        r is None <==> (selected_group(opt_view(requested_group)) matches Some(g) && !state.group_states().contains_key(g)),
        r matches Some(m) ==> ui_model_spec(*state, selected_group(opt_view(requested_group)), now@, m),
{
    let selected: Option<String> = match &requested_group {
        Some(g) => {
            let t = trim_str(g.as_str());
            if t.unicode_len() > 0 { Some(t) } else { None }
        },
        None => None,
    };
    let ghost sel = selected_group(opt_view(requested_group));
    proof { assert(opt_view(selected) == sel); }

    let aggregate_ok: bool;
    let summary: crate::state::AggregateSummary;
    let results: Vec<CheckResult>;
    let mut active_group = String::new();
    let mut active_scope_label = String::new();
    let mut scope_health_href = String::new();
    let mut details_href = String::new();
    let mut snapshot_href = String::new();
    let mut scope_default_profile = String::new();
    let mut scope_default_profile_href = String::new();
    let has_profile_testing: bool;
    let profile_options: Vec<SelectOption>;
    match &selected {
        Some(g) => {
            let agg = match state.aggregate_snapshot_for_group(g.as_str()) {
                Some(a) => a,
                None => return None,
            };
            aggregate_ok = agg.0;
            summary = agg.1;
            results = match state.snapshot_for_group(g.as_str()) {
                Some(v) => v,
                None => return None,
            };
            let dp = match state.default_profile_name_for_group(g.as_str()) {
                Some(p) => {
                    let mut s = String::new();
                    append_str(&mut s, p);
                    proof { assert(s@ =~= p@); }
                    s
                },
                None => literal("built-in-json"),
            };
            append_str(&mut active_group, g.as_str());
            append_str(&mut active_scope_label, "Group: ");
            append_str(&mut active_scope_label, g.as_str());
            append_str(&mut scope_health_href, "/groups/");
            append_str(&mut scope_health_href, g.as_str());
            append_str(&mut scope_health_href, "/healthz");
            append_str(&mut details_href, "/groups/");
            append_str(&mut details_href, g.as_str());
            append_str(&mut details_href, "/healthz/details");
            append_str(&mut snapshot_href, "/ui/api/snapshot?group=");
            append_str(&mut snapshot_href, g.as_str());
            append_str(&mut scope_default_profile, dp.as_str());
            append_str(&mut scope_default_profile_href, "/groups/");
            append_str(&mut scope_default_profile_href, g.as_str());
            append_str(&mut scope_default_profile_href, "/healthz");
            has_profile_testing = true;
            profile_options = build_profile_options(state, g.as_str(), dp.as_str());
        },
        None => {
            let agg = state.aggregate_snapshot();
            aggregate_ok = agg.0;
            summary = agg.1;
            results = state.snapshot();
            append_str(&mut active_scope_label, "All checks");
            append_str(&mut scope_health_href, "/healthz/aggregate");
            append_str(&mut details_href, "/healthz/details");
            append_str(&mut snapshot_href, "/ui/api/snapshot");
            has_profile_testing = false;
            profile_options = Vec::new();
        },
    }
    let ghost scope = scope_results(*state, sel);
    proof {
        assert(result_views(results@) == scope);
        assert(aggregate_ok == crate::state::aggregate_ok(scope));
        assert(summary == crate::state::summary_of(scope));
        let e = Seq::<char>::empty();
        assert(e + "Group: "@ =~= "Group: "@);
        assert(e + "/groups/"@ =~= "/groups/"@);
        assert(e + "/ui/api/snapshot?group="@ =~= "/ui/api/snapshot?group="@);
        assert(e + "All checks"@ =~= "All checks"@);
        assert(e + "/healthz/aggregate"@ =~= "/healthz/aggregate"@);
        assert(e + "/healthz/details"@ =~= "/healthz/details"@);
        assert(e + "/ui/api/snapshot"@ =~= "/ui/api/snapshot"@);
    }
    let sorted_results = crate::state::sort_results_by_name(&results);
    let n = sorted_results.len();
    let mut snapshot_checks: Vec<UiCheckSnapshot> = Vec::new();
    let mut rows: Vec<CheckRow> = Vec::new();
    let mut i: usize = 0;
    while i < n
        invariant
            n == sorted_results@.len(),
            i <= n,
            snapshot_checks@.len() == i,
            rows@.len() == i,
            forall|j: int| 0 <= j < i ==> row_matches(#[trigger] rows@[j], sorted_results@[j])
                && snapshot_matches(snapshot_checks@[j], sorted_results@[j]),
        decreases n - i,
    {
        let r = &sorted_results[i];
        snapshot_checks.push(snapshot_check(r));
        rows.push(check_row(r));
        i = i + 1;
    }
    let group_options = build_group_options(state, active_group.as_str());
    let ghost now_v = now@;
    let m = UiModel {
        aggregate_ok,
        now,
        uptime: state.uptime(),
        active_group,
        active_scope_label,
        scope_help: literal("Groups are logical health views. One check can belong to more than one group."),
        scope_health_href,
        details_href,
        snapshot_href,
        scope_default_profile,
        scope_default_profile_href,
        has_profile_testing,
        group_options,
        profile_options,
        summary_total: summary.total,
        summary_up: summary.up,
        summary_warn: summary.warn,
        summary_down: summary.down,
        summary_critical_down: summary.critical_down,
        snapshot_checks,
        checks: rows,
    };
    proof {
        assert(sorted_results@.len() == m.checks@.len());
        assert(scope_texts_ok(*state, sel, m));
        let rs = sorted_results@;
        assert(m.checks@ == rows@);
        assert(m.snapshot_checks@ == snapshot_checks@);
        assert forall|i: int| 0 <= i < rs.len() implies row_matches(#[trigger] m.checks@[i], rs[i])
            && snapshot_matches(m.snapshot_checks@[i], rs[i]) by {
            assert(row_matches(rows@[i], rs[i]));
        }
        assert(rs.len() == m.checks@.len());
        assert(sorted(result_names(result_views(rs))));
        assert(result_views(rs).to_multiset() == scope.to_multiset());
        lemma_rows_for(m, scope, rs);
        assert(ui_model_spec(*state, sel, now_v, m));
    }
    Some(m)
}

} // verus!

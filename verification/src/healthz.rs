//! What the health endpoints answer: status codes, bodies and content types
//! of aggregate, group and profile responses, and when they answer 404.

use vstd::prelude::*;
use crate::config::{ResponseProfileConfig, ResponseSpecConfig};
use crate::state::{AggregateSummary, AppState, CheckResult, CheckResultView, aggregate_matches, in_group, result_views, sort_results_by_name, result_names, opt_view};
use crate::order::sorted;
use crate::text::{append_str, chars_of, char_is_whitespace, is_whitespace, leading_ws};

verus! {

/// A valid HTTP status code, as `StatusCode::from_u16` accepts it.
pub open spec fn status_code_valid(c: u16) -> bool {
    100 <= c <= 999
}

/// A valid header value, as `HeaderValue::from_str` accepts it: every byte
/// is visible ASCII, a space, a tab or part of a non-ASCII character.
pub open spec fn header_value_valid(s: Seq<char>) -> bool {
    forall|i: int| 0 <= i < s.len() ==> ((#[trigger] s[i] as u32) >= 32 && s[i] as u32 != 127) || s[i] == '\t'
}

/// Whether `s` is a valid header value.
pub fn is_valid_header_value(s: &str) -> (b: bool)
    ensures
        b == header_value_valid(s@),
{
    let v = chars_of(s);
    let n = v.len();
    let mut i: usize = 0;
    while i < n
        invariant
            n == s@.len(),
            v@ == s@,
            i <= n,
            forall|j: int| 0 <= j < i ==> ((#[trigger] s@[j] as u32) >= 32 && s@[j] as u32 != 127) || s@[j] == '\t',
        decreases n - i,
    {
        let c = v[i];
        let u = c as u32;
        if !((u >= 32 && u != 127) || c == '\t') {
            return false;
        }
        i = i + 1;
    }
    true
}

/// The content type used when a profile response names none: JSON when the
/// body (after leading whitespace) starts with `{`, plain text otherwise.
pub open spec fn default_content_type_spec(spec: ResponseSpecConfig) -> Seq<char> {
    match spec.body {
        Some(b) => {
            let t = b@.skip(leading_ws(b@) as int);
            if t.len() > 0 && t[0] == '{' { "application/json"@ } else { "text/plain; charset=utf-8"@ }
        },
        None => "text/plain; charset=utf-8"@,
    }
}

fn literal(s: &str) -> (r: String)
    ensures
        r@ == s@,
{
    let mut r = String::new();
    append_str(&mut r, s);
    proof { assert(r@ =~= s@); }
    r
}

/// The content type of a profile response that names none.
pub fn default_content_type(spec: &ResponseSpecConfig) -> (r: String)
    ensures
        r@ == default_content_type_spec(*spec),
{
    match &spec.body {
        Some(b) => {
            let v = chars_of(b.as_str());
            let n = v.len();
            let mut i: usize = 0;
            proof { assert(b@.skip(0) =~= b@); }
            while i < n && char_is_whitespace(v[i])
                invariant
                    n == b@.len(),
                    v@ == b@,
                    i <= n,
                    leading_ws(b@) == i + leading_ws(b@.skip(i as int)),
                decreases n - i,
            {
                proof { assert(b@.skip(i as int).drop_first() =~= b@.skip(i + 1)); }
                i = i + 1;
            }
            proof {
                if i < n {
                    assert(b@.skip(i as int)[0] == v@[i as int]);
                }
            }
            if i < n && v[i] == '{' {
                literal("application/json")
            } else {
                literal("text/plain; charset=utf-8")
            }
        },
        None => literal("text/plain; charset=utf-8"),
    }
}

/// A response rendered through a response profile.
pub struct CustomResponse {
    pub status: u16,
    pub body: String,
    pub content_type: String,
}

/// The status, body and content type that `profile` gives for `ok`: the
/// configured parts where present and valid, defaults otherwise.
pub open spec fn custom_spec(profile: ResponseProfileConfig, ok: bool) -> (u16, Seq<char>, Seq<char>) {
    let spec = if ok { profile.ok } else { profile.fail };
    let status: u16 = match spec.status_code {
        Some(c) => if status_code_valid(c) { c } else if ok { 200 } else { 503 },
        None => if ok { 200 } else { 503 },
    };
    let body = match spec.body {
        Some(b) => b@,
        None => if ok { "OK"@ } else { "FAILED"@ },
    };
    let ct = match spec.content_type {
        Some(c) => c@,
        None => default_content_type_spec(spec),
    };
    (status, body, if header_value_valid(ct) { ct } else { "text/plain; charset=utf-8"@ })
}

/// Renders the OK or FAIL response of a profile.
pub fn custom_aggregate_response(profile: &ResponseProfileConfig, ok: bool) -> (r: CustomResponse)
    ensures
        (r.status, r.body@, r.content_type@) == custom_spec(*profile, ok),
{
    let spec = if ok { &profile.ok } else { &profile.fail };
    let fallback: u16 = if ok { 200 } else { 503 };
    let status = match spec.status_code {
        Some(c) => if 100 <= c && c <= 999 { c } else { fallback },
        None => fallback,
    };
    let body = match &spec.body {
        Some(b) => b.clone(),
        None => if ok { literal("OK") } else { literal("FAILED") },
    };
    let ct = match &spec.content_type {
        Some(c) => c.clone(),
        None => default_content_type(spec),
    };
    let content_type = if is_valid_header_value(ct.as_str()) { ct } else { literal("text/plain; charset=utf-8") };
    CustomResponse { status, body, content_type }
}

/// What an aggregate endpoint answers.
pub enum HealthResponse {
    /// A response rendered through a profile.
    Custom(CustomResponse),
    /// The built-in JSON response (summary, failed and warning checks) with
    /// this status code.
    BuiltIn { status: u16 },
}

/// The profile a response goes through: the requested one, else the
/// group's default profile.
pub open spec fn chosen_profile(state: AppState, group: Option<Seq<char>>, requested: Option<Seq<char>>) -> Option<Seq<char>> {
    match requested {
        Some(p) => Some(p),
        None => match group {
            Some(g) => if state.group_states().contains_key(g) { state.group_states()[g].default_name() } else { None },
            None => None,
        },
    }
}

/// The response for an aggregate that is `ok` or not: through the chosen
/// profile when it exists, else the built-in JSON with 200 or 503.
pub open spec fn response_spec(state: AppState, ok: bool, group: Option<Seq<char>>, requested: Option<Seq<char>>, r: HealthResponse) -> bool {
    match chosen_profile(state, group, requested) {
        Some(p) if state.profiles().contains_key(p) => r matches HealthResponse::Custom(c)
            && (c.status, c.body@, c.content_type@) == custom_spec(state.profiles()[p], ok),
        _ => r == HealthResponse::BuiltIn { status: if ok { 200 } else { 503 } },
    }
}

/// Chooses how an aggregate is answered.
pub fn aggregate_response(state: &AppState, ok: bool, group_name: Option<&str>, requested_profile: Option<&str>) -> (r: HealthResponse)
    ensures
        response_spec(*state, ok, opt_str(group_name), opt_str(requested_profile), r),
{
    let profile_name: Option<&str> = match requested_profile {
        Some(p) => Some(p),
        None => match group_name {
            Some(g) => state.default_profile_name_for_group(g),
            None => None,
        },
    };
    let profile = match profile_name {
        Some(p) => state.response_profile(p),
        None => None,
    };
    match profile {
        Some(p) => HealthResponse::Custom(custom_aggregate_response(p, ok)),
        None => HealthResponse::BuiltIn { status: if ok { 200 } else { 503 } },
    }
}

/// The contents of an optional string slice.
pub open spec fn opt_str(o: Option<&str>) -> Option<Seq<char>> {
    match o {
        Some(s) => Some(s@),
        None => None,
    }
}

/// An aggregate endpoint's answer: the aggregate and how it is rendered.
pub struct AggregateReply {
    pub ok: bool,
    pub summary: AggregateSummary,
    pub failed: Vec<CheckResult>,
    pub warn: Vec<CheckResult>,
    pub response: HealthResponse,
}

/// `GET /healthz/aggregate`: the aggregate over all checks, built-in JSON.
pub fn aggregate_healthz(state: &AppState) -> (r: AggregateReply)
    ensures
        aggregate_matches(state.result_list(), (r.ok, r.summary, result_views(r.failed@), result_views(r.warn@))),
        r.response == (HealthResponse::BuiltIn { status: if r.ok { 200 } else { 503 } }),
{
    let (ok, summary, failed, warn) = state.aggregate_snapshot();
    let response = aggregate_response(state, ok, None, None);
    AggregateReply { ok, summary, failed, warn, response }
}

/// `GET /groups/{group}/healthz`: the group's aggregate through its default
/// profile; none (404) for an unknown group.
pub fn group_aggregate_healthz(state: &AppState, group_name: &str) -> (r: Option<AggregateReply>)
    ensures
        r is Some <==> state.group_states().contains_key(group_name@),
        r matches Some(a) ==> aggregate_matches(
            state.result_list().filter(in_group(state.group_states()[group_name@])),
            (a.ok, a.summary, result_views(a.failed@), result_views(a.warn@)),
        ) && response_spec(*state, a.ok, Some(group_name@), None, a.response),
{
    match state.aggregate_snapshot_for_group(group_name) {
        Some((ok, summary, failed, warn)) => {
            let response = aggregate_response(state, ok, Some(group_name), None);
            Some(AggregateReply { ok, summary, failed, warn, response })
        },
        None => None,
    }
}

/// Why a profile request is answered 404.
#[derive(Debug, Clone, Copy, PartialEq, Eq, Structural)]
pub enum NotFound {
    /// The profile is not whitelisted for the group (or the group is unknown).
    Profile,
    /// The group is unknown.
    Group,
}

/// `GET /groups/{group}/healthz/profiles/{profile}`: the group's aggregate
/// through an explicitly requested, whitelisted profile.
pub fn group_profile_healthz(state: &AppState, group_name: &str, profile_name: &str) -> (r: Result<AggregateReply, NotFound>)
    ensures
        r is Ok <==> (state.group_states().contains_key(group_name@)
            && state.group_states()[group_name@].profile_set().contains(profile_name@)),
        r matches Err(e) ==> e == NotFound::Profile,
        r matches Ok(a) ==> aggregate_matches(
            state.result_list().filter(in_group(state.group_states()[group_name@])),
            (a.ok, a.summary, result_views(a.failed@), result_views(a.warn@)),
        ) && response_spec(*state, a.ok, Some(group_name@), Some(profile_name@), a.response),
{
    if !state.group_allows_profile(group_name, profile_name) {
        return Err(NotFound::Profile);
    }
    match state.aggregate_snapshot_for_group(group_name) {
        Some((ok, summary, failed, warn)) => {
            let response = aggregate_response(state, ok, Some(group_name), Some(profile_name));
            Ok(AggregateReply { ok, summary, failed, warn, response })
        },
        None => Err(NotFound::Group),
    }
}

/// `GET /groups/{group}/healthz/details`: the group's results ordered by
/// name; none (404) for an unknown group.
pub fn group_details_healthz(state: &AppState, group_name: &str) -> (r: Option<Vec<CheckResult>>)
    ensures
        r is Some <==> state.group_states().contains_key(group_name@),
        r matches Some(v) ==> sorted(result_names(result_views(v@)))
            && result_views(v@).to_multiset()
                == state.result_list().filter(in_group(state.group_states()[group_name@])).to_multiset(),
{
    match state.snapshot_for_group(group_name) {
        Some(v) => Some(sort_results_by_name(&v)),
        None => None,
    }
}

} // verus!

verus! {

/// A group without a default profile answers its health endpoint with the
/// built-in JSON response: 200 when healthy, 503 otherwise.
pub proof fn law_group_without_default_uses_builtin(state: AppState, ok: bool, g: Seq<char>, r: HealthResponse)
    requires
        state.group_states().contains_key(g),
        state.group_states()[g].default_name() is None,
        response_spec(state, ok, Some(g), None, r),
    ensures
        r == (HealthResponse::BuiltIn { status: if ok { 200 } else { 503 } }),
{
}

/// A profile response always carries a valid HTTP status code and a valid
/// content-type header value.
pub proof fn law_custom_response_valid(profile: ResponseProfileConfig, ok: bool)
    ensures
        status_code_valid(custom_spec(profile, ok).0),
        header_value_valid(custom_spec(profile, ok).2),
{
    reveal_strlit("text/plain; charset=utf-8");
    let fallback = "text/plain; charset=utf-8"@;
    assert forall|i: int| 0 <= i < fallback.len() implies ((#[trigger] fallback[i] as u32) >= 32 && fallback[i] as u32 != 127) || fallback[i] == '\t' by {
    }
}

/// A healthy aggregate through a profile answers with the profile's OK
/// response, an unhealthy one with its FAIL response; without a usable
/// profile the built-in response says 200 exactly when healthy.
pub proof fn law_builtin_status_follows_health(state: AppState, ok: bool, group: Option<Seq<char>>, requested: Option<Seq<char>>, r: HealthResponse)
    requires
        response_spec(state, ok, group, requested, r),
        r is BuiltIn,
    ensures
        (r->status == 200) == ok,
        (r->status == 503) == !ok,
{
}

/// The profile endpoint reports the same aggregate as the group endpoint:
/// any two replies for one state and group agree on health, counts and the
/// failing and warning checks; only the rendering differs.
pub proof fn law_profile_endpoint_same_aggregate(
    state: AppState,
    g: Seq<char>,
    a: (bool, AggregateSummary, Seq<CheckResultView>, Seq<CheckResultView>),
    b: (bool, AggregateSummary, Seq<CheckResultView>, Seq<CheckResultView>),
)
    requires
        state.group_states().contains_key(g),
        aggregate_matches(state.result_list().filter(in_group(state.group_states()[g])), a),
        aggregate_matches(state.result_list().filter(in_group(state.group_states()[g])), b),
    ensures
        a == b,
{
}

/// Through a profile, a healthy aggregate gets the profile's OK part and an
/// unhealthy one its FAIL part: that part's body, valid status code and
/// valid content type are sent as written, and the defaults fill in only
/// what the part leaves out.
pub proof fn law_profile_sends_configured_response(profile: ResponseProfileConfig, ok: bool)
    ensures
        (if ok { profile.ok } else { profile.fail }).body matches Some(b) ==> custom_spec(profile, ok).1 == b@,
        (if ok { profile.ok } else { profile.fail }).body is None
            ==> custom_spec(profile, ok).1 == (if ok { "OK"@ } else { "FAILED"@ }),
        custom_spec(profile, ok).0 == match (if ok { profile.ok } else { profile.fail }).status_code {
            Some(c) => if 100 <= c <= 999 { c } else if ok { 200u16 } else { 503u16 },
            None => if ok { 200u16 } else { 503u16 },
        },
        match (if ok { profile.ok } else { profile.fail }).content_type {
            Some(c) => header_value_valid(c@) ==> custom_spec(profile, ok).2 == c@,
            None => true,
        },
{
}

} // verus!

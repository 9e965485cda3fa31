//! The configuration model: servers, groups, response profiles and checks,
//! and the cross-reference rules that a configuration must satisfy.

use vstd::prelude::*;
use std::time::Duration;
use crate::strmap::{Duplicate, StrMap};
use crate::text::{append_str, push_char};

verus! {

/// Where the HTTP server listens.
pub struct ServerConfig {
    /// Bind address for the HTTP server, e.g. "0.0.0.0:8998".
    pub bind: String,
}

/// Service-wide settings.
pub struct GlobalConfig {
    /// How often the cached check results are refreshed.
    pub refresh_interval: Duration,
    /// Fallback timeout for any check without its own timeout.
    pub default_timeout: Option<Duration>,
    /// Optional limit on the number of checks that run at once.
    pub max_concurrency: Option<usize>,
    /// How many history entries are kept per check.
    pub history_size: usize,
}

/// Prometheus naming and labels.
pub struct MetricsConfig {
    pub namespace: Option<String>,
    pub name: Option<String>,
    /// Global labels applied to all metrics; merged into each check's labels
    /// (check-level labels override).
    pub static_labels: Option<StrMap<String>>,
}

/// The OK and FAIL responses of a response profile.
pub struct ResponseProfileConfig {
    pub ok: ResponseSpecConfig,
    pub fail: ResponseSpecConfig,
}

/// One response of a profile; every part is optional.
pub struct ResponseSpecConfig {
    pub status_code: Option<u16>,
    pub content_type: Option<String>,
    pub body: Option<String>,
}

impl Duplicate for ResponseSpecConfig {
    fn duplicate(&self) -> (r: Self) {
        ResponseSpecConfig {
            status_code: self.status_code,
            content_type: match &self.content_type { Some(s) => Some(s.clone()), None => None },
            body: match &self.body { Some(s) => Some(s.clone()), None => None },
        }
    }
}

impl Duplicate for ResponseProfileConfig {
    fn duplicate(&self) -> (r: Self) {
        ResponseProfileConfig { ok: self.ok.duplicate(), fail: self.fail.duplicate() }
    }
}

/// A named health group.
pub struct GroupConfig {
    /// The profile that the group's health endpoint renders through.
    pub default_profile: Option<String>,
    /// The profiles that may be requested explicitly for the group.
    pub profiles: Vec<String>,
}

/// How many consecutive raw results it takes to change a reported status.
#[derive(Clone, Copy, PartialEq, Eq, Structural, Debug)]
pub struct DebouncePolicyConfig {
    /// Consecutive failing results before an UP check is reported failing.
    pub fail_after: usize,
    /// Consecutive UP results before a failing check is reported UP.
    pub recover_after: usize,
}

impl DebouncePolicyConfig {
    /// The policy without debouncing: every result is reported as it comes.
    pub fn default_policy() -> (p: Self)
        ensures
            p.fail_after == 1,
            p.recover_after == 1,
    {
        DebouncePolicyConfig { fail_after: 1, recover_after: 1 }
    }
}

/// Status changes that a webhook can be told about.
#[derive(Clone, Copy, PartialEq, Eq, Structural, Debug)]
pub enum WebhookNotificationEvent {
    Down,
    Warn,
    Recovery,
}

/// A webhook that receives status-change events.
pub struct WebhookNotificationConfig {
    pub url: String,
    pub timeout: Duration,
    pub on: Vec<WebhookNotificationEvent>,
}

/// Notification channels.
pub struct NotificationsConfig {
    pub webhook: Option<WebhookNotificationConfig>,
}

/// One configured check.
#[derive(Clone)]
pub struct CheckConfig {
    pub name: String,
    /// If false, a failing check becomes WARN and does not fail the aggregate.
    pub critical: bool,
    /// Per-check labels, merged with the metrics' static labels.
    pub static_labels: StrMap<String>,
    pub groups: Vec<String>,
    pub debounce: DebouncePolicyConfig,
    pub spec: CheckSpec,
}

/// What a check probes, by type.
#[allow(inconsistent_fields)]
#[derive(Clone)]
pub enum CheckSpec {
    Tcp {
        host: String,
        port: u16,
        timeout: Option<Duration>,
    },
    Http {
        url: String,
        method: Option<String>,
        headers: Option<StrMap<String>>,
        timeout: Option<Duration>,
        tls_verify: Option<bool>,
        status_code: Option<u16>,
        expected_body_substring: Option<String>,
        expected_body_regex: Option<String>,
    },
    HttpJson {
        url: String,
        method: Option<String>,
        headers: Option<StrMap<String>>,
        timeout: Option<Duration>,
        tls_verify: Option<bool>,
        status_code: Option<u16>,
        /// Small JSONPath subset: `$.a.b[0].c`.
        json_path: Option<String>,
        expected_value: Option<String>,
        expected_regex: Option<String>,
    },
    /// TLS certificate expiry check.
    TlsCert {
        host: Option<String>,
        port: Option<u16>,
        url: Option<String>,
        sni: Option<String>,
        timeout: Option<Duration>,
        tls_verify: Option<bool>,
        /// Minimum remaining days, as the IEEE-754 bit pattern of an `f64`.
        min_days_remaining_bits: Option<u64>,
    },
    Postgres {
        host: String,
        port: Option<u16>,
        database: String,
        username: String,
        password: Option<String>,
        connect_timeout: Option<Duration>,
        tls: Option<bool>,
        ignore_invalid_cert: Option<bool>,
        query: String,
        expected_scalar: Option<String>,
        expected_contains: Option<String>,
        expected_regex: Option<String>,
    },
    File {
        path: String,
        format: Option<String>,
        json_path: Option<String>,
        expected_value: Option<String>,
        expected_contains: Option<String>,
        expected_regex: Option<String>,
    },
    Oracle {
        connection_string: Option<String>,
        host: Option<String>,
        port: Option<u16>,
        service_name: Option<String>,
        sid: Option<String>,
        username: String,
        password: Option<String>,
        connect_timeout: Option<Duration>,
        query: String,
        expected_scalar: Option<String>,
        expected_contains: Option<String>,
        expected_regex: Option<String>,
    },
}

/// The whole configuration.
pub struct Config {
    pub server: ServerConfig,
    pub global: GlobalConfig,
    pub metrics: Option<MetricsConfig>,
    pub notifications: Option<NotificationsConfig>,
    pub response_profiles: StrMap<ResponseProfileConfig>,
    pub groups: StrMap<GroupConfig>,
    pub checks: Vec<CheckConfig>,
}

/// The default of `critical`.
pub fn default_true() -> (b: bool)
    ensures
        b,
{
    true
}

/// A broken cross-reference in a configuration.
pub enum ConfigError {
    /// A group's `default_profile` names no response profile.
    UnknownDefaultProfile { group: String, profile: String },
    /// A group's `profiles` names no response profile.
    UnknownProfile { group: String, profile: String },
    /// A group's `default_profile` is missing from its `profiles`.
    DefaultProfileNotListed { group: String, profile: String },
    /// A check names a group that is not defined.
    UnknownGroup { check: String, group: String },
}

/// The names that a vector of strings holds.
pub open spec fn names(v: Seq<String>) -> Seq<Seq<char>> {
    v.map_values(|s: String| s@)
}

/// An error as its kind (in the order of `ConfigError`'s variants) and the
/// two names it carries.
pub open spec fn error_view(e: ConfigError) -> (int, Seq<char>, Seq<char>) {
    match e {
        ConfigError::UnknownDefaultProfile { group, profile } => (0, group@, profile@),
        ConfigError::UnknownProfile { group, profile } => (1, group@, profile@),
        ConfigError::DefaultProfileNotListed { group, profile } => (2, group@, profile@),
        ConfigError::UnknownGroup { check, group } => (3, check@, group@),
    }
}

impl Config {
    /// A group's references are all defined and consistent.
    pub open spec fn group_valid(&self, g: GroupConfig) -> bool {
        &&& g.default_profile matches Some(p) ==> self.response_profiles@.contains_key(p@)
        &&& forall|i: int| 0 <= i < g.profiles@.len() ==> self.response_profiles@.contains_key(#[trigger] g.profiles@[i]@)
        &&& g.default_profile matches Some(p) ==> names(g.profiles@).contains(p@)
    }

    /// A check names only defined groups.
    pub open spec fn check_valid(&self, c: CheckConfig) -> bool {
        forall|i: int| 0 <= i < c.groups@.len() ==> self.groups@.contains_key(#[trigger] c.groups@[i]@)
    }

    /// Every group and every check passes validation.
    pub open spec fn valid(&self) -> bool {
        &&& forall|k: Seq<char>| #[trigger] self.groups@.contains_key(k) ==> self.group_valid(self.groups@[k])
        &&& forall|i: int| 0 <= i < self.checks@.len() ==> self.check_valid(#[trigger] self.checks@[i])
    }

    /// `e` describes a broken reference that this configuration really has.
    pub open spec fn exhibits(&self, e: ConfigError) -> bool {
        match e {
            ConfigError::UnknownDefaultProfile { group, profile } => {
                &&& self.groups@.contains_key(group@)
                &&& self.groups@[group@].default_profile matches Some(p) && p@ == profile@
                &&& !self.response_profiles@.contains_key(profile@)
            },
            ConfigError::UnknownProfile { group, profile } => {
                &&& self.groups@.contains_key(group@)
                &&& names(self.groups@[group@].profiles@).contains(profile@)
                &&& !self.response_profiles@.contains_key(profile@)
            },
            ConfigError::DefaultProfileNotListed { group, profile } => {
                &&& self.groups@.contains_key(group@)
                &&& self.groups@[group@].default_profile matches Some(p) && p@ == profile@
                &&& !names(self.groups@[group@].profiles@).contains(profile@)
            },
            ConfigError::UnknownGroup { check, group } => {
                &&& exists|i: int| 0 <= i < self.checks@.len() && #[trigger] self.checks@[i].name@ == check@
                    && names(self.checks@[i].groups@).contains(group@)
                &&& !self.groups@.contains_key(group@)
            },
        }
    }

    /// The first of `ps` that names no response profile.
    pub open spec fn first_unknown_profile(&self, ps: Seq<String>) -> Option<Seq<char>>
        decreases ps.len(),
    {
        if ps.len() == 0 {
            None
        } else if !self.response_profiles@.contains_key(ps[0]@) {
            Some(ps[0]@)
        } else {
            self.first_unknown_profile(ps.drop_first())
        }
    }

    /// The broken reference reported for group `name`, as `error_view`
    /// gives it: an unknown default profile, else the first unknown listed
    /// profile, else a default profile missing from the list.
    pub open spec fn group_error(&self, name: Seq<char>, g: GroupConfig) -> Option<(int, Seq<char>, Seq<char>)> {
        if g.default_profile matches Some(p) && !self.response_profiles@.contains_key(p@) {
            Some((0, name, g.default_profile->0@))
        } else if self.first_unknown_profile(g.profiles@) is Some {
            Some((1, name, self.first_unknown_profile(g.profiles@)->0))
        } else if g.default_profile matches Some(p) && !names(g.profiles@).contains(p@) {
            Some((2, name, g.default_profile->0@))
        } else {
            None
        }
    }

    /// The first group of `es` (in order) with a broken reference.
    pub open spec fn first_group_error(&self, es: Seq<(String, GroupConfig)>) -> Option<(int, Seq<char>, Seq<char>)>
        decreases es.len(),
    {
        if es.len() == 0 {
            None
        } else if self.group_error(es[0].0@, es[0].1) is Some {
            self.group_error(es[0].0@, es[0].1)
        } else {
            self.first_group_error(es.drop_first())
        }
    }

    /// The first group named by `gs` that is not defined.
    pub open spec fn first_undefined_group(&self, gs: Seq<String>) -> Option<Seq<char>>
        decreases gs.len(),
    {
        if gs.len() == 0 {
            None
        } else if !self.groups@.contains_key(gs[0]@) {
            Some(gs[0]@)
        } else {
            self.first_undefined_group(gs.drop_first())
        }
    }

    /// The first check of `cs` (in order) that names an undefined group.
    pub open spec fn first_check_error(&self, cs: Seq<CheckConfig>) -> Option<(int, Seq<char>, Seq<char>)>
        decreases cs.len(),
    {
        if cs.len() == 0 {
            None
        } else if self.first_undefined_group(cs[0].groups@) is Some {
            Some((3, cs[0].name@, self.first_undefined_group(cs[0].groups@)->0))
        } else {
            self.first_check_error(cs.drop_first())
        }
    }

    /// The error validation reports: the groups are checked first, in
    /// order, then the checks.
    pub open spec fn validation_error(&self) -> Option<(int, Seq<char>, Seq<char>)> {
        if self.first_group_error(self.groups.entries()) is Some {
            self.first_group_error(self.groups.entries())
        } else {
            self.first_check_error(self.checks@)
        }
    }

    /// Checks that groups name defined profiles (and list their default
    /// profile) and that checks name defined groups.
    #[verifier::loop_isolation(false)]
    pub fn validate(&self) -> (r: Result<(), ConfigError>)
        ensures
            r is Ok <==> self.valid(),
            r matches Err(e) ==> self.exhibits(e),
            match r {
                Ok(()) => self.validation_error() is None,
                Err(e) => self.validation_error() == Some(error_view(e)),
            },
    {
        let ng = self.groups.len();
        let ghost es = self.groups.entries();
        let mut gi: usize = 0;
        proof { assert(es.skip(0) =~= es); }
        while gi < ng
            invariant
                ng == self.groups.entries().len(),
                es == self.groups.entries(),
                gi <= ng,
                forall|j: int| 0 <= j < gi ==> #[trigger] self.group_valid(self.groups.entries()[j].1),
                self.first_group_error(es) == self.first_group_error(es.skip(gi as int)),
            decreases ng - gi,
        {
            let group_name = self.groups.key_at(gi);
            let g = self.groups.value_at(gi);
            proof {
                assert(es.skip(gi as int)[0] == es[gi as int]);
                assert(es.skip(gi as int).drop_first() =~= es.skip(gi + 1));
            }
            if let Some(p) = &g.default_profile {
                if !self.response_profiles.contains_key(p.as_str()) {
                    return Err(ConfigError::UnknownDefaultProfile { group: group_name.clone(), profile: p.clone() });
                }
            }
            let np = g.profiles.len();
            let mut pi: usize = 0;
            proof { assert(g.profiles@.skip(0) =~= g.profiles@); }
            while pi < np
                invariant
                    np == g.profiles@.len(),
                    pi <= np,
                    forall|j: int| 0 <= j < pi ==> self.response_profiles@.contains_key(#[trigger] g.profiles@[j]@),
                    self.first_unknown_profile(g.profiles@) == self.first_unknown_profile(g.profiles@.skip(pi as int)),
                decreases np - pi,
            {
                proof {
                    assert(g.profiles@.skip(pi as int)[0] == g.profiles@[pi as int]);
                    assert(g.profiles@.skip(pi as int).drop_first() =~= g.profiles@.skip(pi + 1));
                }
                if !self.response_profiles.contains_key(g.profiles[pi].as_str()) {
                    proof { assert(names(g.profiles@)[pi as int] == g.profiles@[pi as int]@); }
                    return Err(ConfigError::UnknownProfile { group: group_name.clone(), profile: g.profiles[pi].clone() });
                }
                pi = pi + 1;
            }
            proof { assert(g.profiles@.skip(np as int) =~= Seq::<String>::empty()); }
            if let Some(p) = &g.default_profile {
                if !contains_name(&g.profiles, p.as_str()) {
                    return Err(ConfigError::DefaultProfileNotListed { group: group_name.clone(), profile: p.clone() });
                }
            }
            gi = gi + 1;
        }
        proof { assert(es.skip(ng as int) =~= Seq::<(String, GroupConfig)>::empty()); }
        self.groups.note_distinct();
        proof {
            assert forall|k: Seq<char>| #[trigger] self.groups@.contains_key(k) implies self.group_valid(self.groups@[k]) by {
                let j = self.groups.index_of(k);
                assert(self.groups.entries()[j].0@ == k);
                self.groups.lemma_index(j);
            }
        }
        let nc = self.checks.len();
        let ghost cs = self.checks@;
        let mut ci: usize = 0;
        proof { assert(cs.skip(0) =~= cs); }
        while ci < nc
            invariant
                nc == self.checks@.len(),
                cs == self.checks@,
                ci <= nc,
                forall|j: int| 0 <= j < ci ==> #[trigger] self.check_valid(self.checks@[j]),
                self.first_group_error(es) is None,
                self.first_check_error(cs) == self.first_check_error(cs.skip(ci as int)),
            decreases nc - ci,
        {
            let c = &self.checks[ci];
            proof {
                assert(cs.skip(ci as int)[0] == cs[ci as int]);
                assert(cs.skip(ci as int).drop_first() =~= cs.skip(ci + 1));
                assert(c.groups@.skip(0) =~= c.groups@);
            }
            let n = c.groups.len();
            let mut k: usize = 0;
            while k < n
                invariant
                    n == c.groups@.len(),
                    k <= n,
                    forall|j: int| 0 <= j < k ==> self.groups@.contains_key(#[trigger] c.groups@[j]@),
                    self.first_undefined_group(c.groups@) == self.first_undefined_group(c.groups@.skip(k as int)),
                decreases n - k,
            {
                proof {
                    assert(c.groups@.skip(k as int)[0] == c.groups@[k as int]);
                    assert(c.groups@.skip(k as int).drop_first() =~= c.groups@.skip(k + 1));
                }
                if !self.groups.contains_key(c.groups[k].as_str()) {
                    let ghost ci_int = ci as int;
                    proof {
                        assert(names(c.groups@)[k as int] == c.groups@[k as int]@);
                        assert(self.checks@[ci_int].name@ == c.name@);
                    }
                    return Err(ConfigError::UnknownGroup { check: c.name.clone(), group: c.groups[k].clone() });
                }
                k = k + 1;
            }
            proof { assert(c.groups@.skip(n as int) =~= Seq::<String>::empty()); }
            ci = ci + 1;
        }
        proof { assert(cs.skip(nc as int) =~= Seq::<CheckConfig>::empty()); }
        Ok(())
    }
}

/// Whether `v` holds a string equal to `s`.
pub fn contains_name(v: &Vec<String>, s: &str) -> (b: bool)
    ensures
        b == names(v@).contains(s@),
{
    let n = v.len();
    let mut i: usize = 0;
    while i < n
        invariant
            n == v@.len(),
            i <= n,
            forall|j: int| 0 <= j < i ==> v@[j]@ != s@,
        decreases n - i,
    {
        if crate::strmap::str_eq(v[i].as_str(), s) {
            proof { assert(names(v@)[i as int] == s@); }
            return true;
        }
        i = i + 1;
    }
    proof {
        if names(v@).contains(s@) {
            let j = choose|j: int| 0 <= j < names(v@).len() && names(v@)[j] == s@;
            assert(v@[j]@ == s@);
        }
    }
    false
}

impl ConfigError {
    /// The text of the error, as the service reports it.
    pub open spec fn message_spec(&self) -> Seq<char> {
        match self {
            ConfigError::UnknownDefaultProfile { group, profile } =>
                "group '"@ + group@ + "' references unknown default_profile '"@ + profile@ + "'"@,
            ConfigError::UnknownProfile { group, profile } =>
                "group '"@ + group@ + "' references unknown profile '"@ + profile@ + "'"@,
            ConfigError::DefaultProfileNotListed { group, profile } =>
                "group '"@ + group@ + "' default_profile '"@ + profile@ + "' must also be present in profiles"@,
            ConfigError::UnknownGroup { check, group } =>
                "check '"@ + check@ + "' references unknown group '"@ + group@ + "'"@,
        }
    }

    /// Renders the error.
    pub fn message(&self) -> (s: String)
        ensures
            s@ == self.message_spec(),
    {
        let mut s = String::new();
        match self {
            ConfigError::UnknownDefaultProfile { group, profile } => {
                append_str(&mut s, "group '");
                append_str(&mut s, group.as_str());
                append_str(&mut s, "' references unknown default_profile '");
                append_str(&mut s, profile.as_str());
                append_str(&mut s, "'");
            },
            ConfigError::UnknownProfile { group, profile } => {
                append_str(&mut s, "group '");
                append_str(&mut s, group.as_str());
                append_str(&mut s, "' references unknown profile '");
                append_str(&mut s, profile.as_str());
                append_str(&mut s, "'");
            },
            ConfigError::DefaultProfileNotListed { group, profile } => {
                append_str(&mut s, "group '");
                append_str(&mut s, group.as_str());
                append_str(&mut s, "' default_profile '");
                append_str(&mut s, profile.as_str());
                append_str(&mut s, "' must also be present in profiles");
            },
            ConfigError::UnknownGroup { check, group } => {
                append_str(&mut s, "check '");
                append_str(&mut s, check.as_str());
                append_str(&mut s, "' references unknown group '");
                append_str(&mut s, group.as_str());
                append_str(&mut s, "'");
            },
        }
        proof {
            let e = Seq::<char>::empty();
            assert(e + "group '"@ =~= "group '"@);
            assert(e + "check '"@ =~= "check '"@);
        }
        s
    }
}

} // verus!

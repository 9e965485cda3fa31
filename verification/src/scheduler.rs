//! The scheduler's decisions: which timeout a check runs under and what
//! result a finished run records.

use vstd::prelude::*;
use std::time::Duration;
use crate::config::{CheckConfig, CheckSpec};
use crate::state::{CheckResult, CheckStatus, WallTime};
use crate::strmap::StrMap;
use crate::timefmt::{format_duration, humantime_text};

verus! {

/// The check's own timeout (`connect_timeout` for database checks; none for
/// file checks).
pub open spec fn check_timeout_spec(cfg: CheckConfig) -> Option<Duration> {
    match cfg.spec {
        CheckSpec::Tcp { timeout, .. } => timeout,
        CheckSpec::Http { timeout, .. } => timeout,
        CheckSpec::HttpJson { timeout, .. } => timeout,
        CheckSpec::TlsCert { timeout, .. } => timeout,
        CheckSpec::Postgres { connect_timeout, .. } => connect_timeout,
        CheckSpec::Oracle { connect_timeout, .. } => connect_timeout,
        CheckSpec::File { .. } => None,
    }
}

/// The check's own timeout.
pub fn check_timeout(cfg: &CheckConfig) -> (r: Option<Duration>)
    ensures
        r == check_timeout_spec(*cfg),
{
    match &cfg.spec {
        CheckSpec::Tcp { timeout, .. } => *timeout,
        CheckSpec::Http { timeout, .. } => *timeout,
        CheckSpec::HttpJson { timeout, .. } => *timeout,
        CheckSpec::TlsCert { timeout, .. } => *timeout,
        CheckSpec::Postgres { connect_timeout, .. } => *connect_timeout,
        CheckSpec::Oracle { connect_timeout, .. } => *connect_timeout,
        CheckSpec::File { .. } => None,
    }
}

/// The timeout a run is bounded by: the check's own, else the default.
pub fn run_timeout(cfg: &CheckConfig, default_timeout: Option<Duration>) -> (r: Option<Duration>)
    ensures
        r == match check_timeout_spec(*cfg) { Some(t) => Some(t), None => default_timeout },
{
    match check_timeout(cfg) {
        Some(t) => Some(t),
        None => default_timeout,
    }
}

/// The status a run reports: UP when it succeeded; a failure is DOWN for a
/// critical check and WARN for any other.
pub open spec fn run_status(critical: bool, failed: bool) -> CheckStatus {
    if !failed { CheckStatus::Up } else if critical { CheckStatus::Down } else { CheckStatus::Warn }
}

/// The result that a finished run records: the check's name and
/// criticality, the status its outcome gives, the run's time, duration and
/// error text, and the check's labels.
pub fn result_from_outcome(
    cfg: &CheckConfig,
    labels: StrMap<String>,
    error: Option<String>,
    last_run: WallTime,
    duration: Duration,
) -> (r: CheckResult)
    ensures
        r.name@ == cfg.name@,
        r.critical == cfg.critical,
        r.status == run_status(cfg.critical, error is Some),
        r.error == error,
        r.last_run == Some(last_run),
        r.duration == Some(duration),
        r.labels@ == labels@,
{
    let status = match &error {
        None => CheckStatus::Up,
        Some(_) => if cfg.critical { CheckStatus::Down } else { CheckStatus::Warn },
    };
    CheckResult {
        name: cfg.name.clone(),
        status,
        critical: cfg.critical,
        last_run: Some(last_run),
        duration: Some(duration),
        error,
        labels,
    }
}

/// The error a run records when it outlives its timeout `t`.
pub fn timeout_message(t: Duration) -> (r: String)
    ensures
        r@ == "check timed out after "@ + humantime_text(t),
{
    let mut s = String::new();
    crate::text::append_str(&mut s, "check timed out after ");
    let d = format_duration(t);
    crate::text::append_str(&mut s, d.as_str());
    proof { reveal_strlit("check timed out after "); }
    s
}

/// A failing non-critical check is reported WARN, never DOWN.
pub proof fn law_non_critical_failure_warns(critical: bool, failed: bool)
    ensures
        !critical && failed ==> run_status(critical, failed) == CheckStatus::Warn,
        run_status(critical, failed) == CheckStatus::Down ==> critical,
{
}

} // verus!

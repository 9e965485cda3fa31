//! Rendering of times and durations: RFC 3339 wall-clock times through the
//! `time` crate, human-readable durations through `humantime`.

use vstd::prelude::*;
use std::time::Duration;
use time::OffsetDateTime;
use crate::state::WallTime;

verus! {

#[verifier::external_type_specification]
#[verifier::external_body]
pub struct ExOffsetDateTime(time::OffsetDateTime);

#[verifier::external_type_specification]
#[verifier::external_body]
pub struct ExComponentRange(time::error::ComponentRange);

#[verifier::external_type_specification]
#[verifier::external_body]
pub struct ExFormatError(time::error::Format);

/// A UTC date-time together with the Unix timestamp it was made from.
pub struct UtcDateTime {
    secs: i64,
    inner: OffsetDateTime,
}

impl UtcDateTime {
    /// The Unix timestamp of this date-time.
    pub closed spec fn unix_secs(&self) -> int {
        self.secs as int
    }
}

/// The RFC 3339 text (`YYYY-MM-DDTHH:MM:SSZ`) that `time` renders for the
/// UTC date-time at Unix timestamp `unix_secs`.
pub uninterp spec fn rfc3339_text(unix_secs: int) -> Seq<char>;

/// The smallest and largest Unix timestamps that `time` can represent
/// (years -9999 and 9999).
pub open spec fn min_timestamp() -> int { -377705116800 }
pub open spec fn max_timestamp() -> int { 253402300799 }

/// The first second of year 0, the earliest time RFC 3339 can render.
pub open spec fn year_zero() -> int { -62167219200 }

/// `OffsetDateTime::from_unix_timestamp`: fails exactly outside the
/// representable range.
#[verifier::external_body]
fn from_unix_timestamp(secs: i64) -> (r: Result<UtcDateTime, time::error::ComponentRange>)
    ensures
        r is Ok <==> min_timestamp() <= secs <= max_timestamp(),
        r matches Ok(d) ==> d.unix_secs() == secs,
{
    match OffsetDateTime::from_unix_timestamp(secs) {
        Ok(inner) => Ok(UtcDateTime { secs, inner }),
        Err(e) => Err(e),
    }
}

/// `OffsetDateTime::format` with `Rfc3339`: fails for years before 0, and
/// otherwise renders the named text.
#[verifier::external_body]
fn format_rfc3339(d: &UtcDateTime) -> (r: Result<String, time::error::Format>)
    ensures
        r is Ok <==> d.unix_secs() >= year_zero(),
        r matches Ok(s) ==> s@ == rfc3339_text(d.unix_secs()),
{
    d.inner.format(&time::format_description::well_known::Rfc3339)
}

/// RFC 3339 text of a Unix timestamp, where `time` can render it.
pub open spec fn unix_rfc3339(secs: int) -> Option<Seq<char>> {
    if year_zero() <= secs <= max_timestamp() {
        Some(rfc3339_text(secs))
    } else {
        None
    }
}

/// RFC 3339 text of a wall-clock time, from its whole seconds since the
/// epoch; none for times before the epoch.
pub open spec fn wall_rfc3339(t: WallTime) -> Option<Seq<char>> {
    if t.before_epoch {
        None
    } else {
        unix_rfc3339((t.secs as i64) as int)
    }
}

/// `wall_rfc3339` of an optional time.
pub open spec fn opt_wall_rfc3339(t: Option<WallTime>) -> Option<Seq<char>> {
    match t {
        Some(t) => wall_rfc3339(t),
        None => None,
    }
}

/// The text, or `-` where there is none.
pub open spec fn or_dash(t: Option<Seq<char>>) -> Seq<char> {
    match t {
        Some(s) => s,
        None => "-"@,
    }
}

/// RFC 3339 rendering of an optional wall-clock time.
pub fn fmt_rfc3339_opt(st: Option<WallTime>) -> (r: Option<String>)
    ensures
        crate::state::opt_view(r) == opt_wall_rfc3339(st),
{
    let t = match st {
        Some(t) => t,
        None => return None,
    };
    if t.before_epoch {
        return None;
    }
    let secs = t.secs as i64;
    let d = match from_unix_timestamp(secs) {
        Ok(d) => d,
        Err(_) => return None,
    };
    match format_rfc3339(&d) {
        Ok(s) => Some(s),
        Err(_) => None,
    }
}

/// RFC 3339 rendering of an optional time, `-` where there is none.
pub fn fmt_rfc3339_or_dash(st: Option<WallTime>) -> (r: String)
    ensures
        r@ == or_dash(opt_wall_rfc3339(st)),
{
    match fmt_rfc3339_opt(st) {
        Some(s) => s,
        None => {
            let mut s = String::new();
            crate::text::append_str(&mut s, "-");
            proof { assert(s@ =~= "-"@); }
            s
        },
    }
}

/// RFC 3339 rendering of a time, `-` where it cannot be rendered.
pub fn now_rfc3339(st: WallTime) -> (r: String)
    ensures
        r@ == or_dash(wall_rfc3339(st)),
{
    fmt_rfc3339_or_dash(Some(st))
}

/// The text `humantime::format_duration` renders for `d` (such as
/// `1m 30s` or `250ms`).
pub uninterp spec fn humantime_text(d: Duration) -> Seq<char>;

/// `humantime::format_duration`, rendered to a string.
#[verifier::external_body]
pub(crate) fn format_duration(d: Duration) -> (r: String)
    ensures
        r@ == humantime_text(d),
{
    humantime::format_duration(d).to_string()
}

/// The whole seconds in `d`, as `Duration::as_secs` gives them.
pub uninterp spec fn whole_seconds(d: Duration) -> u64;

/// `Duration::as_secs`.
#[verifier::external_body]
pub(crate) fn duration_as_secs(d: Duration) -> (r: u64)
    ensures
        r == whole_seconds(d),
{
    d.as_secs()
}

} // verus!

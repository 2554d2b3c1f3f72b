//! Rendering timestamps for events.
//!
//! A `Timer` configuration resolves into a `FormatTime`: one of five policies.
//! The calendar arithmetic and the fixed renderings are implemented and
//! verified here, over plain clock samples handed in by the caller; only the
//! custom-pattern civil-time policies are left to the host, since their
//! pattern language belongs to an outside formatting library.

use vstd::prelude::*;
use vstd::string::StringExecFns;

use crate::text::{spec_dec, spec_dec_pad, u64_to_dec, u64_to_dec_pad};
use crate::Timer;

verus! {

/// Whether a year has a leap day, in the proleptic Gregorian calendar.
pub open spec fn spec_is_leap(y: nat) -> bool {
    y % 4 == 0 && (y % 100 != 0 || y % 400 == 0)
}

/// Days in a year.
pub open spec fn spec_days_in_year(y: nat) -> nat {
    if spec_is_leap(y) {
        366
    } else {
        365
    }
}

/// Days in a month (1 = January .. 12 = December).
pub open spec fn spec_days_in_month(y: nat, m: nat) -> nat {
    if m == 2 {
        if spec_is_leap(y) {
            29
        } else {
            28
        }
    } else if m == 4 || m == 6 || m == 9 || m == 11 {
        30
    } else {
        31
    }
}

/// The month and day reached by walking `d` whole days into year `y`,
/// starting from the first day of month `m`.
pub open spec fn spec_md_from_days(y: nat, m: nat, d: nat) -> (nat, nat)
    decreases 12 - m,
{
    if d < spec_days_in_month(y, m) || m >= 12 {
        (m, d + 1)
    } else {
        spec_md_from_days(y, m + 1, (d - spec_days_in_month(y, m)) as nat)
    }
}

/// The calendar date reached by walking `d` whole days forward from the
/// first day of year `y`.
pub open spec fn spec_ymd_from_days(y: nat, d: nat) -> (nat, nat, nat)
    decreases d,
{
    if d < spec_days_in_year(y) {
        let (m, dom) = spec_md_from_days(y, 1, d);
        (y, m, dom)
    } else {
        spec_ymd_from_days(y + 1, (d - spec_days_in_year(y)) as nat)
    }
}

/// A civil date and time of day, in universal time.
#[derive(Debug, Clone, Copy, PartialEq, Eq, Structural)]
pub struct CivilTime {
    pub year: u64,
    pub month: u64,
    pub day: u64,
    pub hour: u64,
    pub minute: u64,
    pub second: u64,
}

/// The civil date of a count of seconds since 1970-01-01T00:00:00 in
/// universal time, ignoring leap seconds.
pub open spec fn spec_civil(secs: nat) -> (nat, nat, nat) {
    spec_ymd_from_days(1970, secs / 86400)
}

/// Days in a year, executably.
fn days_in_year(y: u64) -> (r: u64)
    ensures
        r == spec_days_in_year(y as nat),
{
    if y % 4 == 0 && (y % 100 != 0 || y % 400 == 0) {
        366
    } else {
        365
    }
}

/// Days in a month, executably.
fn days_in_month(y: u64, m: u64) -> (r: u64)
    ensures
        r == spec_days_in_month(y as nat, m as nat),
{
    if m == 2 {
        if y % 4 == 0 && (y % 100 != 0 || y % 400 == 0) {
            29
        } else {
            28
        }
    } else if m == 4 || m == 6 || m == 9 || m == 11 {
        30
    } else {
        31
    }
}

/// Convert seconds since 1970-01-01T00:00:00 universal time to a civil
/// date and time of day.
pub fn civil_from_epoch(secs: u64) -> (r: CivilTime)
    ensures
        (r.year as nat, r.month as nat, r.day as nat) == spec_civil(secs as nat),
        r.hour == (secs as nat % 86400) / 3600,
        r.minute == (secs as nat % 3600) / 60,
        r.second == secs as nat % 60,
{
    let mut days = secs / 86400;
    let mut year: u64 = 1970;
    let ghost days0 = days;
    while days >= days_in_year(year)
        invariant
            year >= 1970,
            year - 1970 <= days0 - days,
            days0 <= u64::MAX as nat / 86400,
            spec_ymd_from_days(year as nat, days as nat) == spec_ymd_from_days(1970, days0 as nat),
        decreases days,
    {
        let diy = days_in_year(year);
        days = days - diy;
        year = year + 1;
    }
    let mut month: u64 = 1;
    let ghost days1 = days;
    while month < 12 && days >= days_in_month(year, month)
        invariant
            1 <= month <= 12,
            days < spec_days_in_year(year as nat),
            spec_md_from_days(year as nat, month as nat, days as nat) == spec_md_from_days(
                year as nat,
                1,
                days1 as nat,
            ),
            days <= days1,
            (spec_ymd_from_days(1970, days0 as nat)).0 == year as nat,
            spec_ymd_from_days(year as nat, days1 as nat) == spec_ymd_from_days(1970, days0 as nat),
            days1 < spec_days_in_year(year as nat),
        decreases 12 - month,
    {
        let dim = days_in_month(year, month);
        days = days - dim;
        month = month + 1;
    }
    let rem = secs % 86400;
    CivilTime {
        year,
        month,
        day: days + 1,
        hour: rem / 3600,
        minute: (secs % 3600) / 60,
        second: secs % 60,
    }
}

/// The fixed rendering of a universal-time instant: a calendar date and a
/// time of day with microseconds and an explicit zero offset.
pub open spec fn spec_rfc3339(secs: nat, micros: nat) -> Seq<char> {
    let (y, m, d) = spec_civil(secs);
    spec_dec_pad(y, 4) + "-"@ + spec_dec_pad(m, 2) + "-"@ + spec_dec_pad(d, 2) + "T"@
        + spec_dec_pad((secs % 86400) / 3600, 2) + ":"@ + spec_dec_pad((secs % 3600) / 60, 2)
        + ":"@ + spec_dec_pad(secs % 60, 2) + "."@ + spec_dec_pad(micros, 6) + "+00:00"@
}

/// Render a universal-time instant in the fixed format.
pub fn render_rfc3339(secs: u64, micros: u32) -> (r: String)
    ensures
        r@ == spec_rfc3339(secs as nat, micros as nat),
{
    let c = civil_from_epoch(secs);
    let mut s = u64_to_dec_pad(c.year, 4);
    s.append("-");
    s.append(u64_to_dec_pad(c.month, 2).as_str());
    s.append("-");
    s.append(u64_to_dec_pad(c.day, 2).as_str());
    s.append("T");
    s.append(u64_to_dec_pad(c.hour, 2).as_str());
    s.append(":");
    s.append(u64_to_dec_pad(c.minute, 2).as_str());
    s.append(":");
    s.append(u64_to_dec_pad(c.second, 2).as_str());
    s.append(".");
    s.append(u64_to_dec_pad(micros as u64, 6).as_str());
    s.append("+00:00");
    s
}

/// The rendering of a time elapsed since the pipeline was assembled:
/// whole seconds, a dot, and six digits of microseconds, suffixed `s`.
pub open spec fn spec_uptime(secs: nat, micros: nat) -> Seq<char> {
    spec_dec(secs) + "."@ + spec_dec_pad(micros, 6) + "s"@
}

/// Render a time elapsed since the pipeline was assembled.
pub fn render_uptime(secs: u64, micros: u32) -> (r: String)
    ensures
        r@ == spec_uptime(secs as nat, micros as nat),
{
    let mut s = u64_to_dec(secs);
    s.append(".");
    s.append(u64_to_dec_pad(micros as u64, 6).as_str());
    s.append("s");
    s
}

/// One of the five resolved timestamp policies. The two civil-time policies
/// split further on whether the default precise rendering applies or a
/// custom pattern was kept for the host's formatting library.
#[derive(Debug, Clone, PartialEq, Eq)]
pub enum TimePolicy {
    /// No timestamp field at all.
    Omitted,
    /// Local civil time in the default precise rendering.
    LocalDefault,
    /// Local civil time under a custom pattern, rendered by the host.
    LocalPattern(String),
    /// Universal time in the default precise rendering.
    UtcDefault,
    /// Universal time under a custom pattern, rendered by the host.
    UtcPattern(String),
    /// Wall-clock time in the fixed format.
    System,
    /// Time elapsed since the pipeline was assembled.
    Uptime,
}

/// A resolved time source.
#[derive(Debug, Clone, PartialEq, Eq)]
pub struct FormatTime {
    pub policy: TimePolicy,
}

/// The pattern that stands for the default precise rendering, so that
/// naming it explicitly and omitting it mean the same thing.
pub open spec fn spec_is_default_pattern(p: Option<String>) -> bool {
    match p {
        Option::None => true,
        Some(s) => s@ == "%+"@,
    }
}

/// How a timer configuration resolves: an absent pattern, or the sentinel
/// precise pattern, selects the default rendering; any other pattern is
/// kept for the host.
pub open spec fn spec_time_policy(t: Timer) -> TimePolicy {
    match t {
        Timer::Disabled => TimePolicy::Omitted,
        Timer::Local(p) => if spec_is_default_pattern(p) {
            TimePolicy::LocalDefault
        } else {
            TimePolicy::LocalPattern(p.unwrap())
        },
        Timer::Utc(p) => if spec_is_default_pattern(p) {
            TimePolicy::UtcDefault
        } else {
            TimePolicy::UtcPattern(p.unwrap())
        },
        Timer::System => TimePolicy::System,
        Timer::Uptime => TimePolicy::Uptime,
    }
}

impl FormatTime {
    /// Resolve a timer configuration into a timestamp policy: an absent
    /// pattern, or the sentinel precise pattern, selects the default
    /// rendering; any other pattern is kept for the host.
    pub fn from_timer(t: Timer) -> (r: FormatTime)
        ensures
            r.policy == spec_time_policy(t),
    {
        match t {
            Timer::Disabled => FormatTime { policy: TimePolicy::Omitted },
            Timer::Local(p) => match p {
                Option::None => FormatTime { policy: TimePolicy::LocalDefault },
                Some(pat) => {
                    if crate::str_eq(pat.as_str(), "%+") {
                        FormatTime { policy: TimePolicy::LocalDefault }
                    } else {
                        FormatTime { policy: TimePolicy::LocalPattern(pat) }
                    }
                },
            },
            Timer::Utc(p) => match p {
                Option::None => FormatTime { policy: TimePolicy::UtcDefault },
                Some(pat) => {
                    if crate::str_eq(pat.as_str(), "%+") {
                        FormatTime { policy: TimePolicy::UtcDefault }
                    } else {
                        FormatTime { policy: TimePolicy::UtcPattern(pat) }
                    }
                },
            },
            Timer::System => FormatTime { policy: TimePolicy::System },
            Timer::Uptime => FormatTime { policy: TimePolicy::Uptime },
        }
    }

    /// Whether rendering needs the host's pattern formatter rather than the
    /// fixed renderings of this module.
    pub fn needs_host(&self) -> (r: bool)
        ensures
            r == (self.policy matches TimePolicy::LocalPattern(_) || self.policy
                matches TimePolicy::UtcPattern(_) || self.policy matches TimePolicy::LocalDefault),
    {
        match &self.policy {
            TimePolicy::LocalPattern(_) => true,
            TimePolicy::UtcPattern(_) => true,
            TimePolicy::LocalDefault => true,
            _ => false,
        }
    }
}

/// One reading of the host's clocks, taken when an event is rendered.
#[derive(Debug, Clone, Copy, PartialEq, Eq, Structural)]
pub struct ClockSample {
    /// Whole seconds since 1970-01-01T00:00:00 universal time.
    pub epoch_secs: u64,
    /// Microseconds within the current second.
    pub epoch_micros: u32,
    /// Whole seconds elapsed since the pipeline was assembled.
    pub uptime_secs: u64,
    /// Microseconds within the current elapsed second.
    pub uptime_micros: u32,
}

impl FormatTime {
    /// Render the timestamp of one event from a clock sample, for the
    /// policies whose rendering is fixed; an omitted timestamp renders to
    /// nothing.
    pub fn render(&self, now: &ClockSample) -> (r: Option<String>)
        requires
            !(self.policy matches TimePolicy::LocalPattern(_)),
            !(self.policy matches TimePolicy::UtcPattern(_)),
            !(self.policy matches TimePolicy::LocalDefault),
        ensures
            match self.policy {
                TimePolicy::Omitted => r is None,
                TimePolicy::UtcDefault | TimePolicy::System => r matches Some(s) && s@
                    == spec_rfc3339(now.epoch_secs as nat, now.epoch_micros as nat),
                TimePolicy::Uptime => r matches Some(s) && s@ == spec_uptime(
                    now.uptime_secs as nat,
                    now.uptime_micros as nat,
                ),
                _ => true,
            },
    {
        match &self.policy {
            TimePolicy::Omitted => Option::None,
            TimePolicy::UtcDefault | TimePolicy::System => Some(
                render_rfc3339(now.epoch_secs, now.epoch_micros),
            ),
            TimePolicy::Uptime => Some(render_uptime(now.uptime_secs, now.uptime_micros)),
            _ => Option::None,
        }
    }
}

} // verus!

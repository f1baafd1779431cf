//! The schedule evaluator: given a cron expression, a now-timestamp and a
//! firing window, decide whether a playbook runs now or later.
//!
//! Instants are seconds since the Unix epoch; the caller names the IANA zone
//! in which the cron fields are interpreted.

use vstd::prelude::*;
use crate::strutil::str_to_string;

verus! {

/// Instants this module accepts, bounded well below chrono's maximum
/// representable timestamp (around the year 262143) so that the cron
/// search, which steps one second past the given instant, cannot overflow.
pub const MAX_SCHEDULE_INSTANT: i64 = 8_000_000_000_000;

/// What the cron evaluator answers for a six-field expression, a zone name
/// and an instant: the firing the search finds after the instant, or `None`
/// when the expression or zone is invalid or no firing exists.  During a
/// zone's fall-back overlap the search works in civil time and may report
/// the earlier of two ambiguous instants, so the result is not promised to
/// exceed `after`.
pub uninterp spec fn cron_next(expr: Seq<char>, tz: Seq<char>, after: i64) -> Option<i64>;

/// What parsing an RFC 3339 timestamp yields: the instant as seconds since
/// the Unix epoch, or `None` for invalid text.
pub uninterp spec fn rfc3339_secs(s: Seq<char>) -> Option<i64>;

/// Relies on `cron::Schedule::from_str` and `Schedule::after`: a
/// deterministic search over the compiled-in zone data, carried into the
/// zone by `chrono_tz`.  The bound on `after` keeps the search's one-second
/// step inside chrono's representable range.
#[verifier::external_body]
fn cron_next_after(expr: &str, tz: &str, after: i64) -> (r: Option<i64>)
    requires
        after < MAX_SCHEDULE_INSTANT,
    ensures
        r == cron_next(expr@, tz@, after),
{
    let zone: chrono_tz::Tz = match tz.parse() {
        Ok(z) => z,
        Err(_) => return None,
    };
    let after_dt = match chrono::TimeZone::timestamp_opt(&zone, after, 0) {
        chrono::LocalResult::Single(d) => d,
        _ => return None,
    };
    let schedule: cron::Schedule = match std::str::FromStr::from_str(expr) {
        Ok(s) => s,
        Err(_) => return None,
    };
    schedule.after(&after_dt).next().map(|d| d.timestamp())
}

/// Relies on `chrono::DateTime::parse_from_rfc3339`: a deterministic
/// function of the text, reported as seconds since the Unix epoch.
#[verifier::external_body]
pub fn parse_rfc3339_secs(s: &str) -> (r: Option<i64>)
    ensures
        r == rfc3339_secs(s@),
{
    chrono::DateTime::parse_from_rfc3339(s).ok().map(|d| d.timestamp())
}

/// The user's five-field cron expression extended with a zeroed seconds field.
pub open spec fn six_field(cron: Seq<char>) -> Seq<char> {
    "0 "@ + cron
}

/// Whether a playbook should run now or later; the carried instant is the
/// targeted firing (recent past) or the firing waited for (future).
#[derive(Clone, Copy, Debug, PartialEq, Eq, Structural)]
pub enum Timing {
    Now(i64),
    Delayed(i64),
}

/// The first firing of `cron` (in zone `tz`) strictly after `now - window`,
/// with the user's five fields read as minutes and coarser.
pub open spec fn spec_forecast_next_run(cron: Seq<char>, tz: Seq<char>, now: i64, window: i64) -> Option<i64> {
    cron_next(six_field(cron), tz, (now - window) as i64)
}

/// First firing at or shortly before/after `now`: looks back `window`
/// seconds so a firing that just passed is still found.
pub fn forecast_next_run(cron: &str, tz: &str, now: i64, window: i64) -> (r: Option<i64>)
    requires
        i64::MIN <= now - window < MAX_SCHEDULE_INSTANT,
    ensures
        r == spec_forecast_next_run(cron@, tz@, now, window),
{
    let mut expr = str_to_string("0 ");
    expr.append(cron);
    cron_next_after(expr.as_str(), tz, now - window)
}

/// The characters of an optional borrowed string.
pub open spec fn opt_deref_view(o: Option<&str>) -> Option<Seq<char>> {
    match o {
        None => None,
        Some(s) => Some(s@),
    }
}

/// What `evaluate_schedule` decides: no schedule fires immediately; an
/// invalid schedule or zone yields `None`; otherwise the forecast firing is
/// `Now` when it lies within the acceptance window around `now`, else
/// `Delayed`.
pub open spec fn spec_evaluate_schedule(
    schedule: Option<Seq<char>>,
    tz: Seq<char>,
    now: i64,
    window: i64,
) -> Option<Timing> {
    match schedule {
        None => Some(Timing::Now(now)),
        Some(cron) => match spec_forecast_next_run(cron, tz, now, window) {
            None => None,
            Some(next) => if next - (now - window) <= window {
                Some(Timing::Now(next))
            } else {
                Some(Timing::Delayed(next))
            },
        },
    }
}

/// Decides whether the schedule fires now.  Returns `None` exactly when the
/// cron expression or the zone cannot be evaluated.
pub fn evaluate_schedule(schedule: Option<&str>, tz: &str, now: i64, window: i64) -> (r: Option<
    Timing,
>)
    requires
        i64::MIN <= now - window < MAX_SCHEDULE_INSTANT,
    ensures
        r == spec_evaluate_schedule(opt_deref_view(schedule), tz@, now, window),
        match r {
            Some(Timing::Delayed(next)) => next > now,
            _ => true,
        },
{
    let cron = match schedule {
        None => {
            return Some(Timing::Now(now));
        },
        Some(cron) => cron,
    };
    match forecast_next_run(cron, tz, now, window) {
        None => None,
        Some(next) => {
            if next <= now {
                Some(Timing::Now(next))
            } else {
                Some(Timing::Delayed(next))
            }
        },
    }
}

} // verus!

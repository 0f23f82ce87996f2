//! When a task starts: the next time its cron schedule fires, how long the
//! run waits for it, and the random delay before its actions.
use vstd::prelude::*;
use vstd::string::*;

use crate::run::RunError;

verus! {

#[verifier::external_type_specification]
#[verifier::external_body]
pub struct ExCronError(cron::error::Error);

/// The earliest instant, in milliseconds since the Unix epoch, from which a
/// trigger is looked up (some 250,000 years before it, inside the calendar
/// that `chrono` can hold).
pub const EARLIEST_LOOKUP_MILLIS: i64 = -8000000000000000;

/// The latest instant, in milliseconds since the Unix epoch, from which a
/// trigger is looked up (some 250,000 years after it, with room for the
/// second that `cron` adds).
pub const LATEST_LOOKUP_MILLIS: i64 = 8000000000000000;

/// Whether the `cron` crate accepts `expression` as a schedule.
pub uninterp spec fn cron_accepts(expression: Seq<char>) -> bool;

/// The first time, in milliseconds since the Unix epoch, at which the
/// schedule of `expression` fires after the instant `after` (UTC), or `None`
/// where the schedule fires no more.
pub uninterp spec fn cron_next_after(expression: Seq<char>, after: i64) -> Option<i64>;

/// `cron::Schedule::from_str` on `expression`, then `Schedule::after` from the
/// instant `after` (milliseconds since the epoch, UTC) and the first time
/// that iterator yields, in milliseconds. It parses exactly the expressions
/// that `cron_accepts` names, and the time it finds is named
/// `cron_next_after`; the text of the error is not stated.
#[verifier::external_body]
fn next_trigger_after(expression: &str, after: i64) -> (r: Result<Option<i64>, cron::error::Error>)
    requires
        EARLIEST_LOOKUP_MILLIS <= after <= LATEST_LOOKUP_MILLIS,
    ensures
        r is Ok <==> cron_accepts(expression@),
        r matches Ok(n) ==> n == cron_next_after(expression@, after),
{
    let schedule = <cron::Schedule as std::str::FromStr>::from_str(expression)?;
    let start = chrono::DateTime::from_timestamp_millis(after).unwrap();
    match schedule.after(&start).next() {
        Some(t) => Ok(Some(t.timestamp_millis())),
        None => Ok(None),
    }
}

/// The trigger time of a task, from what the lookup of `expression` gave: an
/// expression that does not parse is an error that names it and carries the
/// parser's error as its cause; a schedule that fires no more is an error.
pub fn trigger_from(expression: &str, found: Result<Option<i64>, cron::error::Error>) -> (r: Result<
    i64,
    RunError,
>)
    ensures
        match found {
            Err(_) => r matches Err(e) && (e matches RunError::InvalidCron { expression: x, .. }
                && x@ == expression@),
            Ok(None) => r matches Err(e) && e == RunError::NoUpcomingTrigger,
            Ok(Some(n)) => r matches Ok(m) && m == n,
        },
{
    match found {
        Err(cause) => Err(RunError::InvalidCron { expression: String::from_str(expression), cause }),
        Ok(None) => Err(RunError::NoUpcomingTrigger),
        Ok(Some(n)) => Ok(n),
    }
}

/// The next time, in milliseconds since the epoch, at which the cron
/// schedule `expression` fires after the instant `now`.
pub fn next_trigger(expression: &str, now: i64) -> (r: Result<i64, RunError>)
    requires
        EARLIEST_LOOKUP_MILLIS <= now <= LATEST_LOOKUP_MILLIS,
    ensures
        r is Ok <==> (cron_accepts(expression@) && cron_next_after(expression@, now) is Some),
        !cron_accepts(expression@) ==> (r matches Err(e) && (e matches RunError::InvalidCron {
            expression: x,
            ..
        } && x@ == expression@)),
        (cron_accepts(expression@) && cron_next_after(expression@, now) is None) ==> (r matches Err(
            e,
        ) && e == RunError::NoUpcomingTrigger),
        cron_accepts(expression@) ==> (cron_next_after(expression@, now) matches Some(n) ==> (
        r matches Ok(m) && m == n)),
{
    let found = next_trigger_after(expression, now);
    trigger_from(expression, found)
}

/// How many milliseconds the run waits at `now` for a trigger at `next`:
/// the time left, or nothing once it has passed.
pub fn wait_millis(next: i64, now: i64) -> (r: u64)
    ensures
        r == (if next > now {
            (next - now) as u64
        } else {
            0
        }),
{
    if next > now {
        let left: i128 = (next as i128) - (now as i128);
        left as u64
    } else {
        0
    }
}

/// `rand::random_range(1..=max)`: a number of seconds drawn at random, at
/// least one and at most `max`. Which one is drawn is not stated.
#[verifier::external_body]
fn random_seconds(max: u64) -> (r: u64)
    requires
        max >= 1,
    ensures
        1 <= r <= max,
{
    rand::random_range(1..=max)
}

/// The largest number of seconds a task's random delay may last: the delay
/// itself when there is one and it is not zero.
pub fn delay_bound(delay: Option<u32>) -> (r: Option<u64>)
    ensures
        r == match delay {
            Some(d) => if d > 0 {
                Some(d as u64)
            } else {
                None
            },
            None => None,
        },
{
    match delay {
        Some(d) => {
            if d > 0 {
                Some(d as u64)
            } else {
                None
            }
        },
        None => None,
    }
}

/// The seconds to wait before a task's actions: none without a delay or with
/// a zero delay, else a number drawn at random from one up to the delay.
pub fn pick_delay_seconds(delay: Option<u32>) -> (r: Option<u64>)
    ensures
        match delay {
            Some(d) if d > 0 => r matches Some(s) && 1 <= s <= d,
            _ => r is None,
        },
{
    match delay_bound(delay) {
        Some(max) => Some(random_seconds(max)),
        None => None,
    }
}

} // verus!

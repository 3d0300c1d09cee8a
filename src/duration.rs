use vstd::prelude::*;
use chrono::{DateTime, Utc};
use crate::text::{decimal, digit_char, push_decimal};

verus! {

/// A value handed to a filter at render time, as far as the filters read it.
#[derive(Debug, Clone)]
pub enum FilterValue {
    Null,
    Bool(bool),
    /// A whole, non-negative number.
    Number(u64),
    Text(String),
    /// Any other value: a negative or fractional number, an array, an object.
    Other,
}

/// Why a filter refused its input.
#[derive(Debug, Clone, Copy, PartialEq, Eq, Structural)]
pub enum FilterError {
    /// The magnitude form needs a whole number of seconds.
    NotANumber,
    /// The relative form needs an RFC 3339 timestamp given as a string.
    NotATimestamp,
}

/// The unit that a count of seconds is shown in: 0 seconds, 1 minutes, 2 hours.
pub open spec fn unit_of(secs: nat) -> nat {
    if secs < 60 { 0 } else if secs < 3600 { 1 } else { 2 }
}

pub open spec fn unit_size(unit: nat) -> nat {
    if unit == 0 { 1 } else if unit == 1 { 60 } else { 3600 }
}

pub open spec fn unit_name(unit: nat) -> Seq<char> {
    if unit == 0 { "seconds"@ } else if unit == 1 { "minutes"@ } else { "hours"@ }
}

/// `secs` in its unit, in tenths, rounded half up.
pub open spec fn scaled_tenths(secs: nat) -> nat {
    let d = unit_size(unit_of(secs));
    (10 * secs + d / 2) / d
}

/// A count of seconds in the largest of seconds, minutes and hours in which it is at
/// least one, with one decimal that is left out when it is zero.
pub open spec fn magnitude_text(secs: nat) -> Seq<char> {
    let t = scaled_tenths(secs);
    let frac: Seq<char> = if t % 10 == 0 { seq![] } else { seq!['.', digit_char(t % 10)] };
    decimal(t / 10) + frac + seq![' '] + unit_name(unit_of(secs))
}

/// Formats a count of seconds as `magnitude_text` states.
pub fn format_magnitude(secs: u64) -> (r: String)
    ensures
        r@ == magnitude_text(secs as nat),
{
    proof {
        reveal_strlit("seconds");
        reveal_strlit("minutes");
        reveal_strlit("hours");
        reveal_strlit(".");
        reveal_strlit(" ");
    }
    let (size, name): (u128, &str) = if secs < 60 {
        (1, "seconds")
    } else if secs < 3600 {
        (60, "minutes")
    } else {
        (3600, "hours")
    };
    let t: u128 = (10 * (secs as u128) + size / 2) / size;
    assert(t == scaled_tenths(secs as nat));
    let whole = (t / 10) as u64;
    let frac = (t % 10) as u64;
    let mut out = String::new();
    push_decimal(&mut out, whole);
    if frac != 0 {
        out.append(".");
        push_decimal(&mut out, frac);
        assert(decimal(frac as nat) =~= seq![digit_char(frac as nat)]);
    }
    out.append(" ");
    out.append(name);
    assert(out@ =~= magnitude_text(secs as nat));
    out
}

/// What a count of whole units that is more than one reads as: "3 hours ago".
pub open spec fn units_ago(n: nat, unit: Seq<char>) -> Seq<char> {
    decimal(n) + seq![' '] + unit + " ago"@
}

/// How long ago a moment `delta` seconds in the past is, in words; past five days the
/// moment's date (`date`) is given instead, or the count of days where it has none.
pub open spec fn relative_text(delta: int, date: Option<Seq<char>>) -> Seq<char> {
    let days = delta / 86400;
    let hours = delta / 3600;
    let minutes = delta / 60;
    if delta <= 0 {
        "just now"@
    } else if days > 5 {
        match date {
            Some(d) => d,
            None => units_ago(days as nat, "days"@),
        }
    } else if days >= 2 {
        units_ago(days as nat, "days"@)
    } else if days == 1 {
        "one day ago"@
    } else if hours > 1 {
        units_ago(hours as nat, "hours"@)
    } else if hours == 1 {
        "an hour ago"@
    } else if minutes > 1 {
        units_ago(minutes as nat, "minutes"@)
    } else if minutes == 1 {
        "one minute ago"@
    } else {
        units_ago(delta as nat, "seconds"@)
    }
}

fn push_units_ago(out: &mut String, n: u64, unit: &str)
    ensures
        final(out)@ == old(out)@ + units_ago(n as nat, unit@),
{
    proof {
        reveal_strlit(" ");
        reveal_strlit(" ago");
    }
    push_decimal(out, n);
    out.append(" ");
    out.append(unit);
    out.append(" ago");
    assert(final(out)@ =~= old(out)@ + units_ago(n as nat, unit@));
}

/// Phrases a moment `delta` seconds in the past, as `relative_text` states.
pub fn relative_phrase(delta: i64, date: Option<String>) -> (r: String)
    ensures
        r@ == relative_text(delta as int, match date { Some(d) => Some(d@), None => None }),
{
    proof {
        reveal_strlit("just now");
        reveal_strlit("days");
        reveal_strlit("hours");
        reveal_strlit("minutes");
        reveal_strlit("seconds");
        reveal_strlit("one day ago");
        reveal_strlit("an hour ago");
        reveal_strlit("one minute ago");
    }
    let mut out = String::new();
    if delta <= 0 {
        return String::from_str("just now");
    }
    let days = (delta / 86400) as u64;
    let hours = (delta / 3600) as u64;
    let minutes = (delta / 60) as u64;
    if days > 5 {
        match date {
            Some(d) => {
                return d;
            },
            None => push_units_ago(&mut out, days, "days"),
        }
    } else if days >= 2 {
        push_units_ago(&mut out, days, "days");
    } else if days == 1 {
        return String::from_str("one day ago");
    } else if hours > 1 {
        push_units_ago(&mut out, hours, "hours");
    } else if hours == 1 {
        return String::from_str("an hour ago");
    } else if minutes > 1 {
        push_units_ago(&mut out, minutes, "minutes");
    } else if minutes == 1 {
        return String::from_str("one minute ago");
    } else {
        push_units_ago(&mut out, delta as u64, "seconds");
    }
    out
}

/// The instant that an RFC 3339 timestamp names, in seconds since the Unix epoch.
pub uninterp spec fn rfc3339_seconds(s: Seq<char>) -> Option<int>;

/// The date of an instant, given in seconds since the Unix epoch, as "Mar 18, 2020".
pub uninterp spec fn date_label_of(ts: int) -> Option<Seq<char>>;

/// Relies on chrono's `DateTime::parse_from_rfc3339` and `DateTime::timestamp`: the
/// instant depends on the text alone.
#[verifier::external_body]
fn parse_timestamp(s: &str) -> (r: Option<i64>)
    ensures
        r matches Some(t) ==> rfc3339_seconds(s@) == Some(t as int),
        r is None ==> rfc3339_seconds(s@) is None,
{
    match DateTime::parse_from_rfc3339(s) {
        Ok(d) => Some(d.timestamp()),
        Err(_) => None,
    }
}

/// Relies on chrono's `DateTime::from_timestamp` and `DateTime::format` with
/// "%b %d, %Y": the label depends on the instant alone, and is absent for an instant
/// that chrono cannot represent.
#[verifier::external_body]
fn date_label(ts: i64) -> (r: Option<String>)
    ensures
        r matches Some(l) ==> date_label_of(ts as int) == Some(l@),
        r is None ==> date_label_of(ts as int) is None,
{
    match DateTime::<Utc>::from_timestamp(ts, 0) {
        Some(d) => Some(d.format("%b %d, %Y").to_string()),
        None => None,
    }
}

/// Relies on chrono's `Utc::now`: the current instant in seconds since the Unix epoch.
#[verifier::external_body]
fn now_seconds() -> (r: i64) {
    Utc::now().timestamp()
}

/// What the duration filter renders for `value`, with `relative` its option of that
/// name, at the instant `now` (seconds since the Unix epoch).
pub open spec fn timeformat_result(value: FilterValue, relative: bool, now: int) -> Result<
    Seq<char>,
    FilterError,
> {
    if relative {
        match value {
            FilterValue::Text(s) => match rfc3339_seconds(s@) {
                Some(ts) => if i64::MIN <= now - ts <= i64::MAX {
                    Ok(relative_text(now - ts, date_label_of(ts)))
                } else {
                    Err(FilterError::NotATimestamp)
                },
                None => Err(FilterError::NotATimestamp),
            },
            _ => Err(FilterError::NotATimestamp),
        }
    } else {
        match value {
            FilterValue::Number(n) => Ok(magnitude_text(n as nat)),
            _ => Err(FilterError::NotANumber),
        }
    }
}

/// The duration filter at a given instant `now`.
pub fn timeformat_at(value: &FilterValue, relative: bool, now: i64) -> (r: Result<
    String,
    FilterError,
>)
    ensures
        match (r, timeformat_result(*value, relative, now as int)) {
            (Ok(s), Ok(t)) => s@ == t,
            (Err(e), Err(f)) => e == f,
            _ => false,
        },
{
    if relative {
        match value {
            FilterValue::Text(s) => match parse_timestamp(s.as_str()) {
                Some(ts) => {
                    let delta = now as i128 - ts as i128;
                    if delta < i64::MIN as i128 || delta > i64::MAX as i128 {
                        Err(FilterError::NotATimestamp)
                    } else {
                        let label = date_label(ts);
                        Ok(relative_phrase(delta as i64, label))
                    }
                },
                None => Err(FilterError::NotATimestamp),
            },
            _ => Err(FilterError::NotATimestamp),
        }
    } else {
        match value {
            FilterValue::Number(n) => Ok(format_magnitude(*n)),
            _ => Err(FilterError::NotANumber),
        }
    }
}

/// The duration filter: a whole number of seconds in the largest fitting unit, or, with
/// `relative`, how long ago an RFC 3339 timestamp is from the current instant.
pub fn timeformat(value: &FilterValue, relative: bool) -> (r: Result<String, FilterError>)
    ensures
        exists|now: i64|
            match (r, #[trigger] timeformat_result(*value, relative, now as int)) {
                (Ok(s), Ok(t)) => s@ == t,
                (Err(e), Err(f)) => e == f,
                _ => false,
            },
{
    let now = now_seconds();
    timeformat_at(value, relative, now)
}

} // verus!

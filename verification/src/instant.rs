use chrono::DateTime;
use vstd::prelude::*;

verus! {

/// A UTC instant as chrono counts it: whole seconds since the Unix epoch
/// and the nanoseconds into that second (1_000_000_000 and above during a
/// leap second).
#[derive(Clone, Copy, Debug, PartialEq, Eq, Structural)]
pub struct UtcInstant {
    pub secs: i64,
    pub nanos: u32,
}

/// The first second that a `chrono::DateTime<Utc>` can hold
/// (-262143-01-01T00:00:00Z).
pub const UTC_MIN_SECS: i64 = -8334601315200;

/// The last second that a `chrono::DateTime<Utc>` can hold
/// (+262142-12-31T23:59:59Z).
pub const UTC_MAX_SECS: i64 = 8210266876799;

/// An instant that a `chrono::DateTime<Utc>` can hold.
pub open spec fn valid_instant(t: UtcInstant) -> bool {
    UTC_MIN_SECS <= t.secs <= UTC_MAX_SECS && t.nanos < 2_000_000_000
}

/// `a` is earlier than `b`.
pub open spec fn earlier(a: (int, int), b: (int, int)) -> bool {
    a.0 < b.0 || (a.0 == b.0 && a.1 < b.1)
}

/// The instant `days` whole days before `now`, as `now - TimeDelta::days`
/// computes it for `days > 0` (an instant inside a leap second counts as
/// the start of the next second).
pub open spec fn days_before(now: UtcInstant, days: u32) -> (int, int) {
    if now.nanos >= 1_000_000_000 {
        (now.secs + 1 - 86400 * days, now.nanos - 1_000_000_000)
    } else {
        (now.secs - 86400 * days, now.nanos as int)
    }
}

/// `now - TimeDelta::days(days)` stays within chrono's range (it panics
/// otherwise).
pub open spec fn days_before_in_range(now: UtcInstant, days: u32) -> bool {
    days == 0 || days_before(now, days).0 >= UTC_MIN_SECS
}

/// The instant an RFC 3339 timestamp denotes, as seconds and nanoseconds in
/// UTC; `None` when the text is not RFC 3339.
pub uninterp spec fn rfc3339_instant(s: Seq<char>) -> Option<(i64, u32)>;

/// `chrono::DateTime::parse_from_rfc3339`, converted to UTC seconds
/// (`timestamp`) and nanoseconds (`timestamp_subsec_nanos`). The parse
/// itself is named, not stated: RFC 3339's grammar with its offsets and
/// leap seconds takes pages.
#[verifier::external_body]
pub(crate) fn parse_rfc3339(s: &str) -> (r: Option<(i64, u32)>)
    ensures
        r == rfc3339_instant(s@),
{
    match DateTime::parse_from_rfc3339(s) {
        Ok(t) => Some((t.timestamp(), t.timestamp_subsec_nanos())),
        Err(_) => None,
    }
}

/// An instant that `DateTime::<Utc>::from_timestamp` accepts: one chrono
/// can hold, with nanoseconds of a leap second only in a second that ends a
/// minute.
pub open spec fn chrono_instant(t: UtcInstant) -> bool {
    valid_instant(t) && (t.nanos < 1_000_000_000 || t.secs % 60 == 59)
}

/// Whether chrono accepts the instant (see `chrono_instant`).
pub fn instant_holds(t: UtcInstant) -> (r: bool)
    ensures
        r == chrono_instant(t),
{
    let within = t.secs >= UTC_MIN_SECS && t.secs <= UTC_MAX_SECS && t.nanos < 2_000_000_000;
    if !within {
        return false;
    }
    if t.nanos < 1_000_000_000 {
        return true;
    }
    let minute_end: i64 = if t.secs >= 0 {
        59
    } else {
        -1
    };
    let rem = t.secs % 60;
    rem == minute_end
}

/// The RFC 3339 text of an instant in UTC, as chrono writes it.
pub uninterp spec fn rfc3339_of(secs: i64, nanos: u32) -> Seq<char>;

/// `DateTime::<Utc>::from_timestamp` followed by `to_rfc3339`. The text
/// is named, not stated: the calendar arithmetic and the choice of
/// fractional digits take pages. The `None` arm cannot be taken under the
/// precondition, which is where `from_timestamp` returns `Some`.
#[verifier::external_body]
pub(crate) fn rfc3339_text(t: UtcInstant) -> (r: String)
    requires
        chrono_instant(t),
    ensures
        r@ == rfc3339_of(t.secs, t.nanos),
{
    match DateTime::from_timestamp(t.secs, t.nanos) {
        Some(d) => d.to_rfc3339(),
        None => String::new(),
    }
}

/// Whether `now` is an instant chrono can hold and `days` days before it
/// still is one: when both hold, a history can be pruned at `now` with a
/// retention of `days` days.
pub fn retention_in_range(now: UtcInstant, days: u32) -> (r: bool)
    ensures
        r == (valid_instant(now) && days_before_in_range(now, days)),
{
    if now.secs < UTC_MIN_SECS || now.secs > UTC_MAX_SECS || now.nanos >= 2_000_000_000 {
        return false;
    }
    if days == 0 {
        return true;
    }
    let base: i64 = if now.nanos >= 1_000_000_000 {
        now.secs + 1
    } else {
        now.secs
    };
    let span: i64 = (days as i64) * 86400;
    base - span >= UTC_MIN_SECS
}

/// `now - TimeDelta::days(days)` for `days > 0`.
pub fn minus_days(now: UtcInstant, days: u32) -> (r: UtcInstant)
    requires
        valid_instant(now),
        days > 0,
        days_before_in_range(now, days),
    ensures
        (r.secs as int, r.nanos as int) == days_before(now, days),
{
    let span: i64 = (days as i64) * 86400;
    if now.nanos >= 1_000_000_000 {
        UtcInstant { secs: now.secs + 1 - span, nanos: now.nanos - 1_000_000_000 }
    } else {
        UtcInstant { secs: now.secs - span, nanos: now.nanos }
    }
}

} // verus!

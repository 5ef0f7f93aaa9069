//! Points in UTC time as whole seconds and nanoseconds since the Unix epoch,
//! and the calls into `chrono` that read the clock, parse and print them.
use vstd::prelude::*;

verus! {

pub const SECS_PER_DAY: i64 = 86400;

/// `DateTime::<Utc>::MIN_UTC.timestamp()`: the first second chrono can represent.
pub const MIN_TIMESTAMP: i64 = -8334601228800;

/// `DateTime::<Utc>::MAX_UTC.timestamp()`: the last second chrono can represent.
pub const MAX_TIMESTAMP: i64 = 8210266876799;

/// A point in UTC time. Points are ordered first by `secs`, then by `nanos`
/// (`nanos` may exceed a second during a leap second, as in chrono).
#[derive(Clone, Copy, Debug, PartialEq, Eq, Structural)]
pub struct Instant {
    pub secs: i64,
    pub nanos: u32,
}

/// `a` comes strictly before `b`.
pub open spec fn earlier(a: Instant, b: Instant) -> bool {
    a.secs < b.secs || (a.secs == b.secs && a.nanos < b.nanos)
}

/// `a` lies within chrono's range, with a sub-second part below one second.
pub open spec fn representable(a: Instant) -> bool {
    MIN_TIMESTAMP <= a.secs <= MAX_TIMESTAMP && a.nanos < 1_000_000_000
}

/// The start of the UTC day holding second `secs`.
pub open spec fn day_start_of(secs: int) -> int {
    secs - secs % 86400
}

/// The hour of the UTC day at second `secs` (chrono's `Timelike::hour`).
pub open spec fn hour_of(secs: int) -> int {
    (secs % 86400) / 3600
}

/// The minute of the hour at second `secs` (chrono's `Timelike::minute`).
pub open spec fn minute_of(secs: int) -> int {
    (secs % 3600) / 60
}

/// What `DateTime::parse_from_rfc3339(s)` gives, converted to UTC, as
/// `(timestamp, timestamp_subsec_nanos)`, or `None` where it refuses `s`.
pub uninterp spec fn rfc3339_instant(s: Seq<char>) -> Option<(i64, u32)>;

/// What `to_rfc3339` prints for the UTC point `(secs, nanos)`.
pub uninterp spec fn rfc3339_text_of(secs: i64, nanos: u32) -> Seq<char>;

/// What `format("%Y-%m-%d")` prints for the UTC second `secs`.
pub uninterp spec fn date_text_of(secs: i64) -> Seq<char>;

/// What `Datelike::ordinal` gives for the UTC second `secs`.
pub uninterp spec fn ordinal_of(secs: i64) -> u32;

/// Reads the clock with `chrono::Utc::now`. Its source builds the value from
/// `SystemTime::now().duration_since(UNIX_EPOCH)` (a panic before the epoch)
/// and unwraps `DateTime::from_timestamp`, so the seconds are not negative and
/// lie in chrono's range, and the sub-second part is below one second.
/// Nothing else is claimed of the time it returns.
#[verifier::external_body]
pub(crate) fn utc_now() -> (r: Instant)
    ensures
        0 <= r.secs <= MAX_TIMESTAMP,
        r.nanos < 1_000_000_000,
{
    let now = chrono::Utc::now();
    Instant { secs: now.timestamp(), nanos: now.timestamp_subsec_nanos() }
}

/// Calls `chrono::DateTime::parse_from_rfc3339` and converts the result to UTC;
/// the result is named, not described.
#[verifier::external_body]
pub(crate) fn parse_rfc3339(s: &str) -> (r: Option<Instant>)
    ensures
        match r {
            Some(t) => rfc3339_instant(s@) == Some((t.secs, t.nanos)),
            None => rfc3339_instant(s@) is None,
        },
{
    match chrono::DateTime::parse_from_rfc3339(s) {
        Ok(t) => Some(Instant { secs: t.timestamp(), nanos: t.timestamp_subsec_nanos() }),
        Err(_) => None,
    }
}

/// Calls `DateTime::<Utc>::to_rfc3339` on the point `at`; the text is named, not described.
#[verifier::external_body]
pub(crate) fn rfc3339_text(at: Instant) -> (r: String)
    requires
        representable(at),
    ensures
        r@ == rfc3339_text_of(at.secs, at.nanos),
{
    chrono::DateTime::from_timestamp(at.secs, at.nanos).unwrap().to_rfc3339()
}

/// Calls `format("%Y-%m-%d")` on the UTC second `secs`; the text is named, not described.
#[verifier::external_body]
pub(crate) fn date_text(secs: i64) -> (r: String)
    requires
        MIN_TIMESTAMP <= secs <= MAX_TIMESTAMP,
    ensures
        r@ == date_text_of(secs),
{
    chrono::DateTime::from_timestamp(secs, 0).unwrap().format("%Y-%m-%d").to_string()
}

/// Calls `Datelike::ordinal` on the UTC second `secs`: the day of the year,
/// from 1 to 366 as chrono documents.
#[verifier::external_body]
pub(crate) fn ordinal(secs: i64) -> (r: u32)
    requires
        MIN_TIMESTAMP <= secs <= MAX_TIMESTAMP,
    ensures
        r == ordinal_of(secs),
        1 <= r <= 366,
{
    chrono::Datelike::ordinal(&chrono::DateTime::from_timestamp(secs, 0).unwrap())
}

/// Whether `a` comes strictly before `b`.
pub fn is_earlier(a: Instant, b: Instant) -> (r: bool)
    ensures
        r == earlier(a, b),
{
    a.secs < b.secs || (a.secs == b.secs && a.nanos < b.nanos)
}

/// `at` moved back by `days` whole days (what `at - Duration::days(days)` gives).
pub fn days_before(at: Instant, days: i64) -> (r: Instant)
    requires
        0 <= days,
        representable(at),
        at.secs - days * 86400 >= MIN_TIMESTAMP,
    ensures
        r.secs == at.secs - days * 86400,
        r.nanos == at.nanos,
        representable(r),
{
    Instant { secs: at.secs - days * SECS_PER_DAY, nanos: at.nanos }
}

/// The first second of the UTC day holding `secs`.
pub fn day_start(secs: i64) -> (r: i64)
    requires
        MIN_TIMESTAMP <= secs <= MAX_TIMESTAMP,
    ensures
        r == day_start_of(secs as int),
        MIN_TIMESTAMP <= r <= secs,
{
    let shifted = secs - MIN_TIMESTAMP;
    let r = MIN_TIMESTAMP + (shifted / SECS_PER_DAY) * SECS_PER_DAY;
    proof {
        let s = secs as int;
        let d = (s - MIN_TIMESTAMP) as int;
        vstd::arithmetic::div_mod::lemma_mod_multiples_vanish(96465292, s, 86400);
        assert(d == 86400 * 96465292 + s);
        vstd::arithmetic::div_mod::lemma_fundamental_div_mod(d, 86400);
        assert(0 <= d % 86400 < 86400);
    }
    r
}

/// The hour of the UTC day at second `secs`.
pub fn hour(secs: i64) -> (r: u32)
    requires
        secs >= 0,
    ensures
        r == hour_of(secs as int),
        r < 24,
{
    ((secs % SECS_PER_DAY) / 3600) as u32
}

/// The minute of the hour at second `secs`.
pub fn minute(secs: i64) -> (r: u32)
    requires
        secs >= 0,
    ensures
        r == minute_of(secs as int),
        r < 60,
{
    ((secs % 3600) / 60) as u32
}

} // verus!

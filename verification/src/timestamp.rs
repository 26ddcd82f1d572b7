//! UTC instants with millisecond resolution.
//!
//! A [`Timestamp`] counts the milliseconds since 1970-01-01T00:00:00Z and is
//! confined to the years -9999 to 9999, the range of the `time` crate's
//! calendar. The time of day is plain arithmetic on that count and is proved
//! here; the calendar date and the system clock come from `time`.

use vstd::prelude::*;
use vstd::string::StringExecFns;

use crate::text::{push_zero_padded, zero_padded};

verus! {

/// Unix time of -9999-01-01T00:00:00Z, in seconds.
pub const MIN_UNIX_SECONDS: i64 = -377_705_116_800;

/// Unix time of 9999-12-31T23:59:59Z, in seconds.
pub const MAX_UNIX_SECONDS: i64 = 253_402_300_799;

/// Unix time of the first representable instant, in milliseconds.
pub const MIN_UNIX_MILLIS: i64 = -377_705_116_800_000;

/// Unix time of the last representable instant, in milliseconds.
pub const MAX_UNIX_MILLIS: i64 = 253_402_300_799_999;

/// The whole seconds since the epoch at `millis` milliseconds, rounded down.
pub open spec fn seconds_of(millis: int) -> int {
    millis / 1000
}

/// The millisecond within the second, `0..=999`.
pub open spec fn millisecond_of(millis: int) -> int {
    millis % 1000
}

/// The hour of the day, `0..=23`, at `seconds` seconds since the epoch.
pub open spec fn hour_of(seconds: int) -> int {
    (seconds % 86_400) / 3_600
}

/// The minute of the hour, `0..=59`.
pub open spec fn minute_of(seconds: int) -> int {
    (seconds % 3_600) / 60
}

/// The second of the minute, `0..=59`.
pub open spec fn second_of(seconds: int) -> int {
    seconds % 60
}

/// Whether `seconds` lies within the calendar's range.
pub open spec fn in_calendar(seconds: int) -> bool {
    MIN_UNIX_SECONDS <= seconds <= MAX_UNIX_SECONDS
}

/// The time of day at `millis` milliseconds since the epoch, in UTC, as
/// `HH:MM:SS.mmm` followed by `Z`.
pub open spec fn clock_text(millis: int) -> Seq<char> {
    zero_padded(hour_of(seconds_of(millis)) as nat, 2) + ":"@ + zero_padded(
        minute_of(seconds_of(millis)) as nat,
        2,
    ) + ":"@ + zero_padded(second_of(seconds_of(millis)) as nat, 2) + "."@ + zero_padded(
        millisecond_of(millis) as nat,
        3,
    ) + "Z"@
}

/// The text `date`, a `T` and the time of day at `millis` milliseconds since
/// the epoch.
pub open spec fn instant_text_with(date: Seq<char>, millis: int) -> Seq<char> {
    date + "T"@ + clock_text(millis)
}

/// The instant at `millis` milliseconds since the epoch, in UTC, as
/// `<date>T<HH:MM:SS.mmm>Z`.
pub open spec fn instant_text(millis: int) -> Seq<char> {
    instant_text_with(date_text(seconds_of(millis)), millis)
}

/// The calendar date at `unix_seconds` seconds since the epoch, in UTC, in
/// the text form that `time::Date` displays (`1970-01-01`).
///
/// The date is computed by the `time` crate; this name stands for its result.
pub uninterp spec fn date_text(unix_seconds: int) -> Seq<char>;

/// Formats the date of `OffsetDateTime::from_unix_timestamp(unix_seconds)`
/// with `{}`.
///
/// Trusted: within the calendar's range `from_unix_timestamp` succeeds, and
/// the date it yields depends on `unix_seconds` alone.
#[verifier::external_body]
fn calendar_date(unix_seconds: i64) -> (r: String)
    requires
        in_calendar(unix_seconds as int),
    ensures
        r@ == date_text(unix_seconds as int),
{
    let at = time::OffsetDateTime::from_unix_timestamp(unix_seconds).unwrap();
    format!("{}", at.date())
}

/// Reads `OffsetDateTime::now_utc()` as nanoseconds since the epoch.
///
/// Trusted: every `OffsetDateTime` in UTC lies within the calendar's range.
/// Nothing else is known of the clock.
#[verifier::external_body]
fn clock_unix_nanos() -> (nanos: i128)
    ensures
        MIN_UNIX_MILLIS * 1_000_000 <= nanos <= MAX_UNIX_MILLIS * 1_000_000 + 999_999,
{
    time::OffsetDateTime::now_utc().unix_timestamp_nanos()
}

/// An instant in UTC, with millisecond resolution.
#[derive(Clone, Copy, Debug, PartialEq, Eq, Structural)]
pub struct Timestamp {
    millis: i64,
}

impl View for Timestamp {
    type V = int;

    /// Milliseconds since 1970-01-01T00:00:00Z.
    closed spec fn view(&self) -> int {
        self.millis as int
    }
}

impl Timestamp {
    #[verifier::type_invariant]
    spec fn in_range(self) -> bool {
        MIN_UNIX_MILLIS <= self.millis <= MAX_UNIX_MILLIS
    }

    /// What every timestamp that exists at run time satisfies.
    pub open spec fn wf(self) -> bool {
        MIN_UNIX_MILLIS <= self@ <= MAX_UNIX_MILLIS
    }

    /// The instant `millis` milliseconds after the epoch (before it, if
    /// negative), or `None` outside the calendar's range.
    pub fn from_unix_millis(millis: i64) -> (r: Option<Timestamp>)
        ensures
            r is Some <==> MIN_UNIX_MILLIS <= millis <= MAX_UNIX_MILLIS,
            r matches Some(t) ==> t@ == millis && t.wf(),
    {
        if MIN_UNIX_MILLIS <= millis && millis <= MAX_UNIX_MILLIS {
            Some(Timestamp { millis })
        } else {
            None
        }
    }

    /// The instant `seconds` whole seconds after the epoch, or `None` outside
    /// the calendar's range.
    pub fn from_unix_timestamp(seconds: i64) -> (r: Option<Timestamp>)
        ensures
            r is Some <==> in_calendar(seconds as int),
            r matches Some(t) ==> t@ == seconds * 1000 && t.wf(),
    {
        if MIN_UNIX_SECONDS <= seconds && seconds <= MAX_UNIX_SECONDS {
            Some(Timestamp { millis: seconds * 1000 })
        } else {
            None
        }
    }

    /// 1970-01-01T00:00:00.000Z.
    pub fn unix_epoch() -> (t: Timestamp)
        ensures
            t@ == 0,
            t.wf(),
    {
        Timestamp { millis: 0 }
    }

    /// The instant `nanos` nanoseconds after the epoch, cut to the
    /// millisecond, or `None` outside the calendar's range.
    pub fn from_unix_nanos(nanos: i128) -> (r: Option<Timestamp>)
        ensures
            r is Some <==> MIN_UNIX_MILLIS * 1_000_000 <= nanos <= MAX_UNIX_MILLIS * 1_000_000
                + 999_999,
            r matches Some(t) ==> t@ == nanos / 1_000_000 && t.wf(),
    {
        if -377_705_116_800_000_000_000 <= nanos && nanos <= 253_402_300_799_999_999_999 {
            let shifted: u128 = (nanos + 377_705_116_800_000_000_000) as u128;
            let millis: i64 = (shifted / 1_000_000) as i64 - 377_705_116_800_000;
            Some(Timestamp { millis })
        } else {
            None
        }
    }

    /// The current instant by the system clock, cut to the millisecond.
    pub fn now_utc() -> (t: Timestamp)
        ensures
            t.wf(),
    {
        Timestamp::from_unix_nanos(clock_unix_nanos()).unwrap()
    }

    /// Milliseconds since the epoch.
    pub fn unix_millis(&self) -> (millis: i64)
        ensures
            millis == self@,
            self.wf(),
    {
        proof {
            use_type_invariant(self);
        }
        self.millis
    }

    /// Whole seconds since the epoch, rounded down.
    pub fn unix_timestamp(&self) -> (seconds: i64)
        ensures
            seconds == seconds_of(self@),
            in_calendar(seconds as int),
    {
        proof {
            use_type_invariant(self);
        }
        let shifted: u64 = (self.millis + 377_705_116_800_000) as u64;
        (shifted / 1000) as i64 - 377_705_116_800
    }

    /// The millisecond within the second.
    pub fn millisecond(&self) -> (ms: u16)
        ensures
            ms == millisecond_of(self@),
            ms < 1000,
    {
        proof {
            use_type_invariant(self);
        }
        let shifted: u64 = (self.millis + 377_705_116_800_000) as u64;
        (shifted % 1000) as u16
    }

    /// The hour of the day in UTC.
    pub fn hour(&self) -> (h: u8)
        ensures
            h == hour_of(seconds_of(self@)),
            h < 24,
    {
        clock_hour(self.unix_timestamp())
    }

    /// The minute of the hour.
    pub fn minute(&self) -> (m: u8)
        ensures
            m == minute_of(seconds_of(self@)),
            m < 60,
    {
        clock_minute(self.unix_timestamp())
    }

    /// The second of the minute.
    pub fn second(&self) -> (s: u8)
        ensures
            s == second_of(seconds_of(self@)),
            s < 60,
    {
        clock_second(self.unix_timestamp())
    }

    /// The calendar date in UTC, as `time::Date` displays it.
    pub fn date(&self) -> (text: String)
        ensures
            text@ == date_text(seconds_of(self@)),
    {
        calendar_date(self.unix_timestamp())
    }

    /// The time of day in UTC with milliseconds, `HH:MM:SS.mmmZ`.
    pub fn clock(&self) -> (text: String)
        ensures
            text@ == clock_text(self@),
    {
        let mut out = String::new();
        push_zero_padded(&mut out, self.hour() as u64, 2);
        out.append(":");
        push_zero_padded(&mut out, self.minute() as u64, 2);
        out.append(":");
        push_zero_padded(&mut out, self.second() as u64, 2);
        out.append(".");
        push_zero_padded(&mut out, self.millisecond() as u64, 3);
        out.append("Z");
        out
    }

    /// The text `date`, a `T` and the time of day with milliseconds.
    pub fn instant_with(&self, date: &str) -> (text: String)
        ensures
            text@ == instant_text_with(date@, self@),
    {
        let mut out = String::new();
        out.append(date);
        out.append("T");
        out.append(self.clock().as_str());
        out
    }

    /// Date and time of day in UTC with milliseconds,
    /// `YYYY-MM-DDTHH:MM:SS.mmmZ`.
    pub fn instant(&self) -> (text: String)
        ensures
            text@ == instant_text(self@),
    {
        self.instant_with(self.date().as_str())
    }
}

/// The hour of the day at `seconds` seconds since the epoch.
fn clock_hour(seconds: i64) -> (h: u8)
    requires
        in_calendar(seconds as int),
    ensures
        h == hour_of(seconds as int),
        h < 24,
{
    let shifted: u64 = (seconds + 377_705_116_800) as u64;
    ((shifted % 86_400) / 3_600) as u8
}

/// The minute of the hour at `seconds` seconds since the epoch.
fn clock_minute(seconds: i64) -> (m: u8)
    requires
        in_calendar(seconds as int),
    ensures
        m == minute_of(seconds as int),
        m < 60,
{
    let shifted: u64 = (seconds + 377_705_116_800) as u64;
    ((shifted % 3_600) / 60) as u8
}

/// The second of the minute at `seconds` seconds since the epoch.
fn clock_second(seconds: i64) -> (s: u8)
    requires
        in_calendar(seconds as int),
    ensures
        s == second_of(seconds as int),
        s < 60,
{
    let shifted: u64 = (seconds + 377_705_116_800) as u64;
    (shifted % 60) as u8
}

} // verus!

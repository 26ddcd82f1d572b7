//! The file sink's rotation policy.
//!
//! A [`FileLogger`] decides, record by record, which file a line belongs to.
//! It holds the name of the current file and the instant of the next
//! rollover, and it goes by the timestamp that each record carries, so the
//! same records always end up in the same files. Opening and writing the
//! files is left to the caller, who is told when to switch.

use vstd::arithmetic::div_mod::{
    lemma_div_is_ordered, lemma_fundamental_div_mod, lemma_mod_add_multiples_vanish,
    lemma_mod_multiples_vanish,
};
use vstd::arithmetic::mul::lemma_mul_inequality;
use vstd::prelude::*;
use vstd::string::StringExecFns;

use crate::log::{Log, LogFormat, LogView};
use crate::text::{push_zero_padded, zero_padded};
use crate::timestamp::{
    date_text, hour_of, in_calendar, minute_of, second_of, seconds_of, Timestamp,
    MAX_UNIX_SECONDS, MIN_UNIX_SECONDS,
};

verus! {

/// How often the file sink starts a new file.
#[derive(Clone, Copy, Debug, PartialEq, Eq, Structural)]
pub enum RollInterval {
    /// One file for the sink's whole life.
    Never,
    Secondly,
    Minutely,
    Hourly,
    Daily,
}

impl RollInterval {
    /// The length of one interval in seconds; `0` for `Never`.
    pub open spec fn spec_seconds(self) -> int {
        match self {
            RollInterval::Never => 0,
            RollInterval::Secondly => 1,
            RollInterval::Minutely => 60,
            RollInterval::Hourly => 3_600,
            RollInterval::Daily => 86_400,
        }
    }

    /// The length of one interval in seconds; `0` for `Never`.
    pub fn seconds(&self) -> (s: i64)
        ensures
            s == self.spec_seconds(),
    {
        match self {
            RollInterval::Never => 0,
            RollInterval::Secondly => 1,
            RollInterval::Minutely => 60,
            RollInterval::Hourly => 3_600,
            RollInterval::Daily => 86_400,
        }
    }
}

/// `seconds` rounded down to the start of its interval: the finer fields are
/// cut off. Without an interval nothing is cut.
pub open spec fn rounded_down(seconds: int, interval: RollInterval) -> int {
    if interval == RollInterval::Never {
        seconds
    } else {
        seconds - seconds % interval.spec_seconds()
    }
}

/// `millis` rounded down to the start of its interval. Without an interval
/// the instant stays as it is.
pub open spec fn rounded_millis(millis: int, interval: RollInterval) -> int {
    if interval == RollInterval::Never {
        millis
    } else {
        1000 * rounded_down(seconds_of(millis), interval)
    }
}

/// The first boundary after `seconds`: the instant one interval later,
/// rounded down to the start of its interval.
pub open spec fn next_rollover(seconds: int, interval: RollInterval) -> int {
    rounded_down(seconds + interval.spec_seconds(), interval)
}

/// The name `<date>T<hour>-<minute>-<second>.log` for the text `date` and
/// the time of day at `start` seconds since the epoch.
pub open spec fn file_name_text_with(date: Seq<char>, start: int) -> Seq<char> {
    date + "T"@ + zero_padded(hour_of(start) as nat, 2) + "-"@ + zero_padded(
        minute_of(start) as nat,
        2,
    ) + "-"@ + zero_padded(second_of(start) as nat, 2) + ".log"@
}

/// The name of the file that holds the records of the interval around
/// `seconds`: `log.log` without an interval, else
/// `<date>T<hour>-<minute>-<second>.log` of the interval's start.
pub open spec fn file_name_text(seconds: int, interval: RollInterval) -> Seq<char> {
    if interval == RollInterval::Never {
        "log.log"@
    } else {
        let start = rounded_down(seconds, interval);
        file_name_text_with(date_text(start), start)
    }
}

/// Rounds `seconds` down to the start of its interval.
fn round_seconds(seconds: i64, interval: &RollInterval) -> (r: i64)
    requires
        MIN_UNIX_SECONDS <= seconds <= MAX_UNIX_SECONDS + 86_400,
    ensures
        r == rounded_down(seconds as int, *interval),
        MIN_UNIX_SECONDS <= r <= seconds,
        seconds - r <= interval.spec_seconds(),
{
    // The calendar starts at a midnight, so moving its start to zero keeps
    // every remainder.
    let shifted: u64 = (seconds + 377_705_116_800) as u64;
    match interval {
        RollInterval::Never => seconds,
        RollInterval::Secondly => seconds,
        RollInterval::Minutely => {
            assert(shifted % 60 == seconds % 60) by {
                lemma_mod_multiples_vanish(6_295_085_280, seconds as int, 60);
            }
            seconds - (shifted % 60) as i64
        },
        RollInterval::Hourly => {
            assert(shifted % 3_600 == seconds % 3_600) by {
                lemma_mod_multiples_vanish(104_918_088, seconds as int, 3_600);
            }
            seconds - (shifted % 3_600) as i64
        },
        RollInterval::Daily => {
            assert(shifted % 86_400 == seconds % 86_400) by {
                lemma_mod_multiples_vanish(4_371_587, seconds as int, 86_400);
            }
            seconds - (shifted % 86_400) as i64
        },
    }
}

/// Rounds `date` down to the start of its interval: `Minutely` cuts the
/// seconds, `Hourly` the minutes too, `Daily` everything after midnight.
pub fn round_date(date: Timestamp, interval: &RollInterval) -> (r: Timestamp)
    ensures
        r@ == rounded_millis(date@, *interval),
        r.wf(),
{
    match interval {
        RollInterval::Never => {
            let _ = date.unix_millis();
            date
        },
        _ => {
            let start = round_seconds(date.unix_timestamp(), interval);
            Timestamp::from_unix_timestamp(start).unwrap()
        },
    }
}

/// The instant of the first rollover after `now`, in seconds since the
/// epoch: `now` moved on by one interval, then rounded down to the start of
/// that interval. Without an interval it is `now` itself, in whole seconds.
pub fn next_roll_date(now: Timestamp, interval: &RollInterval) -> (r: i64)
    ensures
        r == next_rollover(seconds_of(now@), *interval),
{
    let seconds = now.unix_timestamp();
    round_seconds(seconds + interval.seconds(), interval)
}

/// The name `<date>T<hour>-<minute>-<second>.log` for the text `date` and
/// the time of day of `start`.
pub fn file_name_with(date: &str, start: Timestamp) -> (name: String)
    ensures
        name@ == file_name_text_with(date@, seconds_of(start@)),
{
    let mut name = String::new();
    name.append(date);
    name.append("T");
    push_zero_padded(&mut name, start.hour() as u64, 2);
    name.append("-");
    push_zero_padded(&mut name, start.minute() as u64, 2);
    name.append("-");
    push_zero_padded(&mut name, start.second() as u64, 2);
    name.append(".log");
    name
}

/// The name of the file that holds the records of the interval around `now`.
pub fn file_name(now: Timestamp, interval: &RollInterval) -> (name: String)
    ensures
        name@ == file_name_text(seconds_of(now@), *interval),
{
    match interval {
        RollInterval::Never => {
            let mut name = String::new();
            name.append("log.log");
            name
        },
        _ => {
            let start = round_date(now, interval);
            file_name_with(start.date().as_str(), start)
        },
    }
}

/// What a [`FileLogger`] holds, as mathematical values.
pub struct FileLoggerView {
    pub directory: Seq<char>,
    pub interval: RollInterval,
    /// The name of the current file.
    pub file_name: Seq<char>,
    /// The instant of the next rollover, in seconds since the epoch.
    pub roll_date: int,
}

impl FileLoggerView {
    /// The state of a sink that is made at `seconds`.
    pub open spec fn started(directory: Seq<char>, interval: RollInterval, seconds: int) -> Self {
        FileLoggerView {
            directory,
            interval,
            file_name: file_name_text(seconds, interval),
            roll_date: next_rollover(seconds, interval),
        }
    }

    /// The start of the interval that the current file stands for.
    pub open spec fn boundary(self) -> int {
        self.roll_date - self.interval.spec_seconds()
    }

    /// The current file is the one of the interval that ends at the next
    /// rollover, and that interval starts on a boundary within the calendar.
    pub open spec fn wf(self) -> bool {
        if self.interval == RollInterval::Never {
            self.file_name == "log.log"@
        } else {
            &&& in_calendar(self.boundary())
            &&& self.boundary() % self.interval.spec_seconds() == 0
            &&& self.file_name == file_name_text(self.boundary(), self.interval)
        }
    }

    /// Whether a record stamped `seconds` makes the sink start a new file.
    pub open spec fn rolls_at(self, seconds: int) -> bool {
        self.interval != RollInterval::Never && seconds >= self.roll_date
    }

    /// The state after a record stamped `seconds`.
    pub open spec fn after(self, seconds: int) -> Self {
        if self.rolls_at(seconds) {
            Self::started(self.directory, self.interval, seconds)
        } else {
            self
        }
    }

    /// The state after the records stamped `stamps`, taken in that order.
    pub open spec fn after_all(self, stamps: Seq<int>) -> Self
        decreases stamps.len(),
    {
        if stamps.len() == 0 {
            self
        } else {
            self.after_all(stamps.drop_last()).after(stamps.last())
        }
    }

    /// How many of the records stamped `stamps`, taken in that order, make
    /// the sink start a new file.
    pub open spec fn rollovers(self, stamps: Seq<int>) -> nat
        decreases stamps.len(),
    {
        if stamps.len() == 0 {
            0
        } else {
            let before = self.after_all(stamps.drop_last());
            let rolls: nat = if before.rolls_at(stamps.last()) {
                1
            } else {
                0
            };
            self.rollovers(stamps.drop_last()) + rolls
        }
    }

    /// The file that receives the last of the records stamped `stamps`,
    /// taken in that order: the current file once the sink has decided on it.
    pub open spec fn file_of_last(self, stamps: Seq<int>) -> Seq<char> {
        self.after_all(stamps).file_name
    }

    /// What the sink asks of the caller for the record `log`: to switch to
    /// the file of the interval around the record's timestamp, if the record
    /// crossed the boundary, and to append the rendered line.
    pub open spec fn write(self, log: LogView, format: LogFormat) -> FileWriteView {
        FileWriteView {
            rotate: if self.rolls_at(seconds_of(log.millis)) {
                Some(file_name_text(seconds_of(log.millis), self.interval))
            } else {
                None
            },
            line: log.render(format),
        }
    }
}

/// What the caller has to do for one record: switch files first, if asked,
/// then append the line to the current file.
#[derive(Clone, Debug, PartialEq, Eq)]
pub struct FileWrite {
    /// The name of the file to open in place of the current one, if the
    /// record crossed a rollover boundary.
    pub rotate: Option<String>,
    /// The rendered record.
    pub line: String,
}

/// A [`FileWrite`] as mathematical values.
pub struct FileWriteView {
    pub rotate: Option<Seq<char>>,
    pub line: Seq<char>,
}

impl View for FileWrite {
    type V = FileWriteView;

    open spec fn view(&self) -> FileWriteView {
        FileWriteView {
            rotate: match self.rotate {
                Some(name) => Some(name@),
                None => None,
            },
            line: self.line@,
        }
    }
}

/// The rotation state of the file sink.
#[derive(Clone, Debug)]
pub struct FileLogger {
    directory: String,
    interval: RollInterval,
    file_name: String,
    roll_date: i64,
}

impl View for FileLogger {
    type V = FileLoggerView;

    closed spec fn view(&self) -> FileLoggerView {
        FileLoggerView {
            directory: self.directory@,
            interval: self.interval,
            file_name: self.file_name@,
            roll_date: self.roll_date as int,
        }
    }
}

impl FileLogger {
    /// A sink for `directory` that is made now, by the system clock. Its
    /// current file is the one of the interval around now.
    pub fn new(directory: &str, interval: RollInterval) -> (r: FileLogger)
        ensures
            r@.wf(),
            exists|seconds: int|
                in_calendar(seconds) && r@ == #[trigger] FileLoggerView::started(
                    directory@,
                    interval,
                    seconds,
                ),
    {
        FileLogger::starting_at(directory, interval, Timestamp::now_utc())
    }

    /// A sink for `directory` that is made at the instant `now`. Its current
    /// file is the one of the interval around `now`, and the next rollover is
    /// the first boundary after `now`.
    pub fn starting_at(directory: &str, interval: RollInterval, now: Timestamp) -> (r: FileLogger)
        ensures
            r@ == FileLoggerView::started(directory@, interval, seconds_of(now@)),
            r@.wf(),
    {
        let mut owned = String::new();
        owned.append(directory);
        let seconds = now.unix_timestamp();
        proof {
            lemma_started_wf(directory@, interval, seconds as int);
        }
        FileLogger {
            directory: owned,
            interval,
            file_name: file_name(now, &interval),
            roll_date: next_roll_date(now, &interval),
        }
    }

    /// The directory that holds the files.
    pub fn directory(&self) -> (r: &str)
        ensures
            r@ == self@.directory,
    {
        self.directory.as_str()
    }

    /// The rollover interval.
    pub fn interval(&self) -> (r: RollInterval)
        ensures
            r == self@.interval,
    {
        self.interval
    }

    /// The name of the current file, within the directory.
    pub fn file_name(&self) -> (r: &str)
        ensures
            r@ == self@.file_name,
    {
        self.file_name.as_str()
    }

    /// The instant of the next rollover, in seconds since the epoch.
    pub fn roll_date(&self) -> (r: i64)
        ensures
            r == self@.roll_date,
    {
        self.roll_date
    }

    /// Takes one record: decides whether it starts a new file, and renders
    /// it.
    ///
    /// Without an interval the sink never starts a new file. Otherwise it
    /// does so when the record's timestamp is at or after the next rollover;
    /// the new file is the one of the interval around the record's timestamp,
    /// and the next rollover is the first boundary after it.
    pub fn log(&mut self, log: &Log, format: &LogFormat) -> (out: FileWrite)
        requires
            log@.has_message(),
        ensures
            out@ == old(self)@.write(log@, *format),
            final(self)@ == old(self)@.after(seconds_of(log@.millis)),
            old(self)@.wf() ==> final(self)@.wf(),
    {
        let seconds = log.timestamp.unix_timestamp();
        let rolls = match self.interval {
            RollInterval::Never => false,
            _ => seconds >= self.roll_date,
        };
        let rotate = if rolls {
            proof {
                lemma_started_wf(self@.directory, self@.interval, seconds as int);
            }
            let name = file_name(log.timestamp, &self.interval);
            self.roll_date = next_roll_date(log.timestamp, &self.interval);
            self.file_name = name.clone();
            Some(name)
        } else {
            None
        };
        FileWrite { rotate, line: log.render(format) }
    }
}

/// An instant within the interval that starts at the boundary `start`
/// rounds down to `start`.
pub proof fn lemma_rounds_to_boundary(seconds: int, start: int, interval: RollInterval)
    requires
        interval != RollInterval::Never,
        start % interval.spec_seconds() == 0,
        start <= seconds < start + interval.spec_seconds(),
    ensures
        rounded_down(seconds, interval) == start,
        next_rollover(seconds, interval) == start + interval.spec_seconds(),
        file_name_text(seconds, interval) == file_name_text(start, interval),
{
    let unit = interval.spec_seconds();
    lemma_rounding(seconds, interval);
    lemma_rounding(start, interval);
    let down = rounded_down(seconds, interval);
    // Two boundaries less than one interval apart are the same boundary.
    assert(down == start) by {
        lemma_fundamental_div_mod(down, unit);
        lemma_fundamental_div_mod(start, unit);
        let a = down / unit;
        let b = start / unit;
        assert(down == unit * a && start == unit * b);
        assert(-unit < unit * a - unit * b < unit);
        assert(unit * a - unit * b == unit * (a - b)) by (nonlinear_arith);
        assert(a == b) by (nonlinear_arith)
            requires
                -unit < unit * (a - b) < unit,
                unit > 0,
        ;
    }
    assert(rounded_down(start, interval) == start);
}

/// A sink without an interval never starts a new file: whatever the records
/// and however many, the sink stays as it is and every record goes to the
/// file it had from the start.
pub proof fn lemma_never_rolls_over(state: FileLoggerView, stamps: Seq<int>)
    requires
        state.interval == RollInterval::Never,
    ensures
        state.after_all(stamps) == state,
        state.rollovers(stamps) == 0,
        state.file_of_last(stamps) == state.file_name,
    decreases stamps.len(),
{
    if stamps.len() > 0 {
        lemma_never_rolls_over(state, stamps.drop_last());
    }
}

/// Whether one of the instants `stamps` is at or after `boundary`.
pub open spec fn reaches(stamps: Seq<int>, boundary: int) -> bool {
    exists|i: int| 0 <= i < stamps.len() && #[trigger] stamps[i] >= boundary
}

/// Records around one boundary make one new file, in whatever order they
/// arrive.
///
/// Let every record be stamped before the end of the interval that follows
/// the next rollover. Taken one at a time, in any order, the records start
/// exactly one new file if one of them has reached the rollover, and none
/// otherwise. Until the first such record every record goes to the file that
/// was current at the start; from it on every record, early ones too, goes to
/// the file of the interval that starts at the rollover.
pub proof fn lemma_one_rollover_per_boundary(state: FileLoggerView, stamps: Seq<int>)
    requires
        state.wf(),
        state.interval != RollInterval::Never,
        forall|i: int|
            0 <= i < stamps.len() ==> #[trigger] stamps[i] < state.roll_date
                + state.interval.spec_seconds(),
    ensures
        state.rollovers(stamps) == if reaches(stamps, state.roll_date) {
            1nat
        } else {
            0nat
        },
        state.after_all(stamps) == if reaches(stamps, state.roll_date) {
            FileLoggerView::started(state.directory, state.interval, state.roll_date)
        } else {
            state
        },
        state.file_of_last(stamps) == if reaches(stamps, state.roll_date) {
            file_name_text(state.roll_date, state.interval)
        } else {
            state.file_name
        },
    decreases stamps.len(),
{
    let unit = state.interval.spec_seconds();
    assert(state.roll_date % unit == 0) by {
        lemma_mod_add_multiples_vanish(state.boundary(), unit);
    }
    lemma_rounds_to_boundary(state.roll_date, state.roll_date, state.interval);
    if stamps.len() > 0 {
        let earlier = stamps.drop_last();
        let last = stamps.last();
        lemma_one_rollover_per_boundary(state, earlier);
        if reaches(earlier, state.roll_date) {
            // The file has been started already, and the next rollover is
            // out of the reach of every record.
        } else if last >= state.roll_date {
            lemma_rounds_to_boundary(last, state.roll_date, state.interval);
        } else {
            assert forall|i: int| 0 <= i < stamps.len() implies !(#[trigger] stamps[i]
                >= state.roll_date) by {
                if i < earlier.len() {
                    assert(earlier[i] == stamps[i]);
                }
            }
        }
    }
}

/// Of records around one boundary, each goes to one of two files.
///
/// Under the conditions of [`lemma_one_rollover_per_boundary`], the `k`-th
/// record goes to the file that was current at the start if no record up to
/// it has reached the rollover, and to the file of the interval that starts
/// at the rollover otherwise.
pub proof fn lemma_one_of_two_files(state: FileLoggerView, stamps: Seq<int>, k: int)
    requires
        state.wf(),
        state.interval != RollInterval::Never,
        forall|i: int|
            0 <= i < stamps.len() ==> #[trigger] stamps[i] < state.roll_date
                + state.interval.spec_seconds(),
        0 <= k < stamps.len(),
    ensures
        state.file_of_last(stamps.subrange(0, k + 1)) == if reaches(
            stamps.subrange(0, k + 1),
            state.roll_date,
        ) {
            file_name_text(state.roll_date, state.interval)
        } else {
            state.file_name
        },
{
    let taken = stamps.subrange(0, k + 1);
    assert forall|i: int| 0 <= i < taken.len() implies #[trigger] taken[i] < state.roll_date
        + state.interval.spec_seconds() by {
        assert(taken[i] == stamps[i]);
    }
    lemma_one_rollover_per_boundary(state, taken);
}

/// Two records on either side of the next rollover go to two files: the one
/// before it leaves the sink as it is, the one at or after it starts the file
/// of a later interval.
pub proof fn lemma_rollover_splits(state: FileLoggerView, before: int, after: int)
    requires
        state.wf(),
        state.interval != RollInterval::Never,
        before < state.roll_date <= after,
    ensures
        state.after(before) == state,
        state.after(before).rolls_at(after),
        state.after(before).after(after).boundary() == rounded_down(after, state.interval),
        state.after(before).after(after).boundary() >= state.roll_date > state.boundary(),
{
    let unit = state.interval.spec_seconds();
    lemma_rounding(after, state.interval);
    assert(state.roll_date % unit == 0) by {
        lemma_mod_add_multiples_vanish(state.boundary(), unit);
    }
    let down = rounded_down(after, state.interval);
    // A boundary that is more than one interval short of `after` cannot be
    // the start of its interval.
    assert(down >= state.roll_date) by {
        lemma_fundamental_div_mod(down, unit);
        lemma_fundamental_div_mod(state.roll_date, unit);
        let a = down / unit;
        let b = state.roll_date / unit;
        assert(unit * a > unit * b - unit);
        assert(unit * a - unit * b == unit * (a - b)) by (nonlinear_arith);
        assert(a >= b) by (nonlinear_arith)
            requires
                unit * (a - b) > -unit,
                unit > 0,
        ;
        assert(unit * a >= unit * b) by (nonlinear_arith)
            requires
                a >= b,
                unit > 0,
        ;
    }
}

/// A sink that is made within the calendar is well formed.
pub proof fn lemma_started_wf(directory: Seq<char>, interval: RollInterval, seconds: int)
    requires
        in_calendar(seconds),
    ensures
        FileLoggerView::started(directory, interval, seconds).wf(),
{
    let state = FileLoggerView::started(directory, interval, seconds);
    if interval != RollInterval::Never {
        let unit = interval.spec_seconds();
        let start = rounded_down(seconds, interval);
        assert(state.boundary() == start && start % unit == 0 && in_calendar(start)) by {
            lemma_rounding(seconds, interval);
        }
    }
}

/// Rounding down lands on a boundary at most one interval back, and the
/// first boundary after an instant is the one that follows the start of its
/// interval.
pub proof fn lemma_rounding(seconds: int, interval: RollInterval)
    requires
        interval != RollInterval::Never,
    ensures
        rounded_down(seconds, interval) % interval.spec_seconds() == 0,
        rounded_down(seconds, interval) <= seconds < rounded_down(seconds, interval)
            + interval.spec_seconds(),
        next_rollover(seconds, interval) == rounded_down(seconds, interval)
            + interval.spec_seconds(),
        in_calendar(seconds) ==> in_calendar(rounded_down(seconds, interval)),
{
    let unit = interval.spec_seconds();
    let start = rounded_down(seconds, interval);
    assert(unit == 1 || unit == 60 || unit == 3_600 || unit == 86_400);
    assert(start == unit * (seconds / unit)) by {
        lemma_fundamental_div_mod(seconds, unit);
    }
    assert(start % unit == 0) by {
        lemma_mod_multiples_vanish(seconds / unit, 0, unit);
    }
    assert((seconds + unit) % unit == seconds % unit) by {
        lemma_mod_add_multiples_vanish(seconds, unit);
    }
    if in_calendar(seconds) {
        // The first instant of the calendar is itself a boundary.
        assert(MIN_UNIX_SECONDS as int % unit == 0);
        assert(start >= MIN_UNIX_SECONDS) by {
            lemma_fundamental_div_mod(MIN_UNIX_SECONDS as int, unit);
            assert(unit * (seconds / unit) >= unit * (MIN_UNIX_SECONDS as int / unit)) by {
                lemma_div_is_ordered(MIN_UNIX_SECONDS as int, seconds, unit);
                lemma_mul_inequality(MIN_UNIX_SECONDS as int / unit, seconds / unit, unit);
            }
        }
    }
}

} // verus!

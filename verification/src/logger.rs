//! Timestamps and log lines of the unified log.

use vstd::prelude::*;
use vstd::string::*;
use crate::text::{padded_decimal, push_padded, same_text};

verus! {

/// One record of the unified log.
#[derive(Debug, PartialEq, Eq)]
pub struct LogEntry {
    pub source: String,
    pub level: String,
    pub message: String,
    pub timestamp: String,
}

/// Whether `y` is a leap year of the Gregorian calendar.
pub open spec fn is_leap_year(y: int) -> bool {
    (y % 4 == 0 && y % 100 != 0) || y % 400 == 0
}

/// The number of days of the year `y`.
pub open spec fn year_days(y: int) -> int {
    if is_leap_year(y) {
        366
    } else {
        365
    }
}

/// The number of days of the month `m` (from 1 to 12) of the year `y`.
pub open spec fn month_days(y: int, m: int) -> int {
    if m == 2 {
        if is_leap_year(y) {
            29
        } else {
            28
        }
    } else if m == 4 || m == 6 || m == 9 || m == 11 {
        30
    } else {
        31
    }
}

/// The number of days from the first day of 1970 to the first day of the
/// year `y`.
pub open spec fn days_before_year(y: int) -> int
    decreases y - 1970,
{
    if y <= 1970 {
        0
    } else {
        days_before_year(y - 1) + year_days(y - 1)
    }
}

/// The number of days from the first day of the year `y` to the first day of
/// its month `m`.
pub open spec fn days_before_month(y: int, m: int) -> int
    decreases m,
{
    if m <= 1 {
        0
    } else {
        days_before_month(y, m - 1) + month_days(y, m - 1)
    }
}

/// Whether `y`, `m`, `d` is a date of the calendar, not before 1970.
pub open spec fn is_date(y: int, m: int, d: int) -> bool {
    y >= 1970 && 1 <= m <= 12 && 1 <= d <= month_days(y, m)
}

/// The number of days from the first day of 1970 to the date `y`, `m`, `d`.
pub open spec fn days_from_civil(y: int, m: int, d: int) -> int {
    days_before_year(y) + days_before_month(y, m) + d - 1
}

/// A later year begins later, by a year's days at least for each year
/// between.
pub proof fn lemma_years_grow(a: int, b: int)
    requires
        1970 <= a <= b,
    ensures
        days_before_year(a) + 365 * (b - a) <= days_before_year(b),
    decreases b - a,
{
    if a < b {
        lemma_years_grow(a, b - 1);
    }
}

/// A date lies within its year, and a later month begins later.
pub proof fn lemma_months_grow(y: int, a: int, b: int)
    requires
        1 <= a <= b <= 13,
    ensures
        days_before_month(y, a) + 28 * (b - a) <= days_before_month(y, b),
        days_before_month(y, 13) == year_days(y),
    decreases b - a,
{
    reveal_with_fuel(days_before_month, 14);
    if a < b {
        lemma_months_grow(y, a, b - 1);
    }
}

/// Two dates that are the same number of days from the first day of 1970
/// are the same date.
pub proof fn lemma_date_is_unique(y1: int, m1: int, d1: int, y2: int, m2: int, d2: int)
    requires
        is_date(y1, m1, d1),
        is_date(y2, m2, d2),
        days_from_civil(y1, m1, d1) == days_from_civil(y2, m2, d2),
    ensures
        y1 == y2 && m1 == m2 && d1 == d2,
{
    lemma_months_grow(y1, m1 + 1, 13);
    lemma_months_grow(y2, m2 + 1, 13);
    lemma_months_grow(y1, 1, m1);
    lemma_months_grow(y2, 1, m2);
    if y1 < y2 {
        lemma_years_grow(y1 + 1, y2);
    } else if y2 < y1 {
        lemma_years_grow(y2 + 1, y1);
    } else if m1 < m2 {
        lemma_months_grow(y1, m1 + 1, m2);
    } else if m2 < m1 {
        lemma_months_grow(y1, m2 + 1, m1);
    }
}

/// Whether `y` is a leap year of the Gregorian calendar.
pub fn is_leap(y: u64) -> (leap: bool)
    ensures
        leap == is_leap_year(y as int),
{
    (y % 4 == 0 && y % 100 != 0) || (y % 400 == 0)
}

/// The number of days of the month `m` of a year that is a leap year or not.
fn days_in_month(leap: bool, m: u64) -> (days: u64)
    ensures
        forall|y: int| is_leap_year(y) == leap ==> days == #[trigger] month_days(y, m as int),
{
    if m == 2 {
        if leap {
            29
        } else {
            28
        }
    } else if m == 4 || m == 6 || m == 9 || m == 11 {
        30
    } else {
        31
    }
}

/// The date that lies `days` days after the first day of 1970, as year, month
/// and day of the month.
pub fn days_to_ymd(days: u64) -> (date: (u64, u64, u64))
    ensures
        is_date(date.0 as int, date.1 as int, date.2 as int),
        days_from_civil(date.0 as int, date.1 as int, date.2 as int) == days,
{
    let mut rest: u64 = days;
    let mut y: u64 = 1970;
    loop
        invariant
            y >= 1970,
            rest <= days,
            days_before_year(y as int) + rest == days,
            365 * (y - 1970) <= days - rest,
        ensures
            y >= 1970,
            days_before_year(y as int) + rest == days,
            rest < year_days(y as int),
        decreases rest,
    {
        let dy: u64 = if is_leap(y) {
            366
        } else {
            365
        };
        if rest < dy {
            break ;
        }
        rest -= dy;
        y += 1;
    }
    let leap = is_leap(y);
    let mut mo: u64 = 1;
    proof {
        lemma_months_grow(y as int, 1, 13);
    }
    loop
        invariant
            1 <= mo <= 12,
            leap == is_leap_year(y as int),
            days_before_year(y as int) + days_before_month(y as int, mo as int) + rest == days,
            days_before_month(y as int, mo as int) + rest < year_days(y as int),
            days_before_month(y as int, 13) == year_days(y as int),
        ensures
            1 <= mo <= 12,
            days_before_year(y as int) + days_before_month(y as int, mo as int) + rest == days,
            rest < month_days(y as int, mo as int),
        decreases 13 - mo,
    {
        let ml = days_in_month(leap, mo);
        assert(ml == month_days(y as int, mo as int));
        if rest < ml {
            break ;
        }
        proof {
            if mo == 12 {
                assert(days_before_month(y as int, 13) == days_before_month(y as int, 12)
                    + month_days(y as int, 12));
            }
        }
        rest -= ml;
        mo += 1;
    }
    (y, mo, rest + 1)
}

/// The timestamp of the instant `secs` seconds and `millis` milliseconds after
/// the first second of 1970, in universal time: year, month and day, then the
/// time of day with milliseconds.
pub open spec fn iso_timestamp(y: int, m: int, d: int, secs: u64, millis: u32) -> Seq<char> {
    let rem = secs % 86400;
    padded_decimal(y as nat, 4) + "-"@ + padded_decimal(m as nat, 2) + "-"@ + padded_decimal(
        d as nat,
        2,
    ) + "T"@ + padded_decimal((rem / 3600) as nat, 2) + ":"@ + padded_decimal(
        ((rem % 3600) / 60) as nat,
        2,
    ) + ":"@ + padded_decimal((rem % 60) as nat, 2) + "."@ + padded_decimal(millis as nat, 3)
        + "Z"@
}

/// Whether `text` is the timestamp of the instant `secs` seconds and `millis`
/// milliseconds after the first second of 1970.
pub open spec fn is_timestamp_of(text: Seq<char>, secs: u64, millis: u32) -> bool {
    exists|y: int, m: int, d: int|
        is_date(y, m, d) && days_from_civil(y, m, d) == secs / 86400 && text == #[trigger] iso_timestamp(
            y,
            m,
            d,
            secs,
            millis,
        )
}

/// The timestamp of the instant `secs` seconds and `millis` milliseconds after
/// the first second of 1970, in universal time.
pub fn time_now_iso(secs: u64, millis: u32) -> (text: String)
    ensures
        is_timestamp_of(text@, secs, millis),
{
    let days = secs / 86400;
    let rem = secs % 86400;
    let h = rem / 3600;
    let m = (rem % 3600) / 60;
    let s = rem % 60;
    let (y, mo, d) = days_to_ymd(days);
    let mut text = String::new();
    push_padded(&mut text, y, 4);
    text.append("-");
    push_padded(&mut text, mo, 2);
    text.append("-");
    push_padded(&mut text, d, 2);
    text.append("T");
    push_padded(&mut text, h, 2);
    text.append(":");
    push_padded(&mut text, m, 2);
    text.append(":");
    push_padded(&mut text, s, 2);
    text.append(".");
    push_padded(&mut text, millis as u64, 3);
    text.append("Z");
    assert(text@ =~= iso_timestamp(y as int, mo as int, d as int, secs, millis));
    text
}

/// The five characters that stand for the source `source` in a log line.
pub open spec fn source_tag(source: Seq<char>) -> Seq<char> {
    if source == "rust"@ {
        "RUST "@
    } else if source == "bun"@ {
        "BUN  "@
    } else if source == "react"@ {
        "REACT"@
    } else {
        "?????"@
    }
}

/// The five characters that stand for the level `level` in a log line.
pub open spec fn level_tag(level: Seq<char>) -> Seq<char> {
    if level == "info"@ {
        "INFO "@
    } else if level == "warn"@ {
        "WARN "@
    } else if level == "error"@ {
        "ERROR"@
    } else if level == "debug"@ {
        "DEBUG"@
    } else {
        "?????"@
    }
}

/// The line that records `entry` in the log file.
pub open spec fn log_line_of(entry: LogEntry) -> Seq<char> {
    entry.timestamp@ + " ["@ + source_tag(entry.source@) + "] ["@ + level_tag(entry.level@)
        + "] "@ + entry.message@ + "\n"@
}

/// The line that records `entry` in the log file.
pub fn log_line(entry: &LogEntry) -> (line: String)
    ensures
        line@ == log_line_of(*entry),
{
    let src = if same_text(entry.source.as_str(), "rust") {
        "RUST "
    } else if same_text(entry.source.as_str(), "bun") {
        "BUN  "
    } else if same_text(entry.source.as_str(), "react") {
        "REACT"
    } else {
        "?????"
    };
    let lvl = if same_text(entry.level.as_str(), "info") {
        "INFO "
    } else if same_text(entry.level.as_str(), "warn") {
        "WARN "
    } else if same_text(entry.level.as_str(), "error") {
        "ERROR"
    } else if same_text(entry.level.as_str(), "debug") {
        "DEBUG"
    } else {
        "?????"
    };
    let mut line = entry.timestamp.clone();
    line.append(" [");
    line.append(src);
    line.append("] [");
    line.append(lvl);
    line.append("] ");
    line.append(entry.message.as_str());
    line.append("\n");
    line
}

/// The name of the log file of the day of `timestamp`: the first ten
/// characters of the timestamp between `unified-` and `.log`.
pub open spec fn log_file_name_of(timestamp: Seq<char>) -> Seq<char> {
    "unified-"@ + timestamp.take(10) + ".log"@
}

/// The name of the log file of the day of `timestamp`, or `None` for a text
/// of less than ten characters, which is no timestamp.
pub fn log_file_name(timestamp: &str) -> (name: Option<String>)
    ensures
        match name {
            Some(n) => timestamp@.len() >= 10 && n@ == log_file_name_of(timestamp@),
            None => timestamp@.len() < 10,
        },
{
    if timestamp.unicode_len() < 10 {
        return None;
    }
    let date = timestamp.substring_char(0, 10);
    let mut name = String::from_str("unified-");
    name.append(date);
    name.append(".log");
    Some(name)
}

/// How grave a record of the log is.
#[derive(Clone, Copy, Debug, PartialEq, Eq)]
pub enum Severity {
    Error,
    Warn,
    Debug,
    Info,
}

/// The severity of a record of the level `level`: a level that is none of
/// `error`, `warn` and `debug` counts as information.
pub open spec fn severity_of(level: Seq<char>) -> Severity {
    if level == "error"@ {
        Severity::Error
    } else if level == "warn"@ {
        Severity::Warn
    } else if level == "debug"@ {
        Severity::Debug
    } else {
        Severity::Info
    }
}

/// The channel on which the records of this process are published.
pub const LOG_CHANNEL: &'static str = "log:rust";

/// The source of the records of this process.
pub const LOG_SOURCE: &'static str = "rust";

/// What is to be done with one message of this process: the record to
/// publish, the line to append to the log file, and the severity under which
/// the message is handed on.
#[derive(Debug, PartialEq, Eq)]
pub struct LogRecord {
    pub entry: LogEntry,
    pub line: String,
    pub severity: Severity,
}

/// Makes the record of the message `message` of the level `level`, written at
/// the instant `secs` seconds and `millis` milliseconds after the first second
/// of 1970.
pub fn unified_log(level: &str, message: String, secs: u64, millis: u32) -> (record: LogRecord)
    ensures
        record.entry.source@ == LOG_SOURCE@,
        record.entry.level@ == level@,
        record.entry.message == message,
        is_timestamp_of(record.entry.timestamp@, secs, millis),
        record.line@ == log_line_of(record.entry),
        record.severity == severity_of(level@),
{
    let severity = if same_text(level, "error") {
        Severity::Error
    } else if same_text(level, "warn") {
        Severity::Warn
    } else if same_text(level, "debug") {
        Severity::Debug
    } else {
        Severity::Info
    };
    let entry = LogEntry {
        source: String::from_str(LOG_SOURCE),
        level: String::from_str(level),
        message,
        timestamp: time_now_iso(secs, millis),
    };
    let line = log_line(&entry);
    LogRecord { entry, line, severity }
}

} // verus!

//! Numbers, times and long texts as they are shown.

use vstd::prelude::*;
use vstd::string::{StrSliceExecFns, StringExecFns};

verus! {

/// The character of a decimal digit.
pub open spec fn digit_char(d: int) -> char {
    if d == 0 {
        '0'
    } else if d == 1 {
        '1'
    } else if d == 2 {
        '2'
    } else if d == 3 {
        '3'
    } else if d == 4 {
        '4'
    } else if d == 5 {
        '5'
    } else if d == 6 {
        '6'
    } else if d == 7 {
        '7'
    } else if d == 8 {
        '8'
    } else {
        '9'
    }
}

/// A number in decimal digits, without leading zeros.
pub open spec fn decimal(n: int) -> Seq<char>
    decreases n,
{
    if n < 10 {
        seq![digit_char(n)]
    } else {
        decimal(n / 10).push(digit_char(n % 10))
    }
}

/// A number below a hundred in two digits.
pub open spec fn two_digits(k: int) -> Seq<char> {
    seq![digit_char(k / 10), digit_char(k % 10)]
}

/// A number below a thousand in three digits.
pub open spec fn three_digits(k: int) -> Seq<char> {
    seq![digit_char(k / 100), digit_char((k / 10) % 10), digit_char(k % 10)]
}

/// A number in decimal digits, with a comma before every group of three
/// digits but the first.
pub open spec fn grouped(n: int) -> Seq<char>
    decreases n,
{
    if n < 1000 {
        decimal(n)
    } else {
        grouped(n / 1000) + seq![','] + three_digits(n % 1000)
    }
}

/// The time of day of a Unix time in UTC, as `HH:MM:SS`.
pub open spec fn clock_of(timestamp: i64) -> Seq<char> {
    let seconds = timestamp as int % 86400;
    two_digits(seconds / 3600) + seq![':'] + two_digits((seconds % 3600) / 60) + seq![':']
        + two_digits(seconds % 60)
}

/// The first second of the year 1, as a Unix time.
pub const FIRST_CALENDAR_SECOND: i64 = -62_135_596_800;

/// The last second of the year 9999, as a Unix time.
pub const LAST_CALENDAR_SECOND: i64 = 253_402_300_799;

/// Whether a Unix time falls in the years 1 to 9999.
pub open spec fn in_calendar(timestamp: i64) -> bool {
    FIRST_CALENDAR_SECOND <= timestamp <= LAST_CALENDAR_SECOND
}

/// `chrono::DateTime::from_timestamp` with `format("%H:%M:%S")`: the time
/// of day in UTC of a Unix time that chrono can represent, nothing for one
/// that it cannot. Its calendar reaches far beyond the years 1 to 9999 on
/// both sides, so a time in those years is always represented.
#[verifier::external_body]
fn clock_text(timestamp: i64) -> (text: Option<String>)
    ensures
        text matches Some(t) ==> t@ == clock_of(timestamp),
        in_calendar(timestamp) ==> text is Some,
{
    match chrono::DateTime::from_timestamp(timestamp, 0) {
        Some(moment) => Some(moment.format("%H:%M:%S").to_string()),
        None => None,
    }
}

/// The text shown for the outcome of the clock: its time of day, `unknown`
/// where it gave none.
pub fn timestamp_text(clock: Option<String>) -> (text: String)
    ensures
        text@ == match clock {
            Some(t) => t@,
            None => "unknown"@,
        },
{
    match clock {
        Some(t) => t,
        None => "unknown".to_owned(),
    }
}

/// The time of day of a Unix time in UTC. A time out of the calendar's
/// reach, which no time in the years 1 to 9999 is, may read `unknown`.
pub fn format_timestamp(timestamp: i64) -> (text: String)
    ensures
        in_calendar(timestamp) ==> text@ == clock_of(timestamp),
        text@ == clock_of(timestamp) || text@ == "unknown"@,
{
    timestamp_text(clock_text(timestamp))
}

/// The text of one decimal digit.
fn digit_text(d: u64) -> (text: &'static str)
    requires
        d < 10,
    ensures
        text@ == seq![digit_char(d as int)],
{
    proof {
        reveal_strlit("0");
        reveal_strlit("1");
        reveal_strlit("2");
        reveal_strlit("3");
        reveal_strlit("4");
        reveal_strlit("5");
        reveal_strlit("6");
        reveal_strlit("7");
        reveal_strlit("8");
        reveal_strlit("9");
    }
    let text = if d == 0 {
        "0"
    } else if d == 1 {
        "1"
    } else if d == 2 {
        "2"
    } else if d == 3 {
        "3"
    } else if d == 4 {
        "4"
    } else if d == 5 {
        "5"
    } else if d == 6 {
        "6"
    } else if d == 7 {
        "7"
    } else if d == 8 {
        "8"
    } else {
        "9"
    };
    text
}

/// A number below a thousand in three digits.
fn three_digit_text(k: u64) -> (text: String)
    requires
        k < 1000,
    ensures
        text@ == three_digits(k as int),
{
    let text = String::from_str(digit_text(k / 100)).concat(digit_text((k / 10) % 10)).concat(
        digit_text(k % 10),
    );
    text
}

/// A number below a thousand in decimal digits.
fn small_decimal_text(n: u64) -> (text: String)
    requires
        n < 1000,
    ensures
        text@ == decimal(n as int),
{
    reveal_with_fuel(decimal, 3);
    if n < 10 {
        String::from_str(digit_text(n))
    } else if n < 100 {
        let text = String::from_str(digit_text(n / 10)).concat(digit_text(n % 10));
        text
    } else {
        let text = String::from_str(digit_text(n / 100)).concat(digit_text((n / 10) % 10)).concat(
            digit_text(n % 10),
        );
        text
    }
}

/// A number in decimal digits with a comma between its groups of three.
pub fn format_number(n: u64) -> (text: String)
    ensures
        text@ == grouped(n as int),
    decreases n,
{
    if n < 1000 {
        small_decimal_text(n)
    } else {
        let head = format_number(n / 1000);
        let tail = three_digit_text(n % 1000);
        proof {
            reveal_strlit(",");
        }
        head.concat(",").concat(tail.as_str())
    }
}

/// A text cut to its two ends: a text of more than `max` characters keeps
/// `max / 2 - 2` characters of either end, with three dots between.
pub open spec fn shortened(text: Seq<char>, max: int) -> Seq<char> {
    if text.len() > max {
        let half = max / 2 - 2;
        text.subrange(0, half) + "..."@ + text.subrange(text.len() - half, text.len() as int)
    } else {
        text
    }
}

/// A text cut to its two ends where it is longer than `max` characters.
pub fn truncate(s: &str, max: usize) -> (text: String)
    requires
        max >= 4,
    ensures
        text@ == shortened(s@, max as int),
{
    let len = s.unicode_len();
    if len > max {
        let half = max / 2 - 2;
        let head = s.substring_char(0, half);
        let tail = s.substring_char(len - half, len);
        String::from_str(head).concat("...").concat(tail)
    } else {
        s.to_owned()
    }
}

/// What a change of an account is shown as.
#[derive(Debug, Clone, Copy, PartialEq, Eq, Structural)]
pub enum BalanceChange {
    /// The balance rose.
    Increase,
    /// The balance fell.
    Decrease,
    /// The balance stayed: the data changed.
    DataChanged,
}

/// How a balance stands to the one before.
pub fn balance_change(previous: u64, current: u64) -> (change: BalanceChange)
    ensures
        change == if current > previous {
            BalanceChange::Increase
        } else if current < previous {
            BalanceChange::Decrease
        } else {
            BalanceChange::DataChanged
        },
{
    if current > previous {
        BalanceChange::Increase
    } else if current < previous {
        BalanceChange::Decrease
    } else {
        BalanceChange::DataChanged
    }
}

/// The words for what a tracking run shows: slots always, then leaders,
/// transactions and saving where they are asked for, with commas between.
pub open spec fn tracking_words(leaders: bool, transactions: bool, save: bool) -> Seq<char> {
    "slots"@ + (if leaders {
        ", leaders"@
    } else {
        ""@
    }) + (if transactions {
        ", txs"@
    } else {
        ""@
    }) + (if save {
        ", saving"@
    } else {
        ""@
    })
}

/// The words for what a tracking run shows.
pub fn tracking_label(leaders: bool, transactions: bool, save: bool) -> (text: String)
    ensures
        text@ == tracking_words(leaders, transactions, save),
{
    let mut text = String::from_str("slots");
    text = text.concat(if leaders {
        ", leaders"
    } else {
        ""
    });
    text = text.concat(if transactions {
        ", txs"
    } else {
        ""
    });
    text.concat(if save {
        ", saving"
    } else {
        ""
    })
}

} // verus!

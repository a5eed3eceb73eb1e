//! The two lines that close a successful benchmark, and how an elapsed time is written
//! in them: in seconds with three decimals.

use vstd::prelude::*;
use vstd::string::*;

verus! {

/// The character for a decimal digit.
pub open spec fn digit_char(digit: nat) -> char {
    if digit == 0 {
        '0'
    } else if digit == 1 {
        '1'
    } else if digit == 2 {
        '2'
    } else if digit == 3 {
        '3'
    } else if digit == 4 {
        '4'
    } else if digit == 5 {
        '5'
    } else if digit == 6 {
        '6'
    } else if digit == 7 {
        '7'
    } else if digit == 8 {
        '8'
    } else {
        '9'
    }
}

/// A number in decimal digits, most significant first, without leading zeros.
pub open spec fn decimal(value: nat) -> Seq<char>
    decreases value,
{
    if value < 10 {
        seq![digit_char(value)]
    } else {
        decimal(value / 10).push(digit_char(value % 10))
    }
}

/// A time in nanoseconds as the nearest whole number of milliseconds, a half rounded up.
pub open spec fn rounded_millis(nanos: u64) -> nat {
    ((nanos + 500_000) / 1_000_000) as nat
}

/// A time in nanoseconds written in seconds: the whole seconds, a point, and the three
/// digits of the milliseconds.
pub open spec fn seconds_text(nanos: u64) -> Seq<char> {
    let millis = rounded_millis(nanos);
    decimal(millis / 1000) + seq![
        '.',
        digit_char(millis / 100 % 10),
        digit_char(millis / 10 % 10),
        digit_char(millis % 10),
    ]
}

/// The line that gives the mean: `avg: ` and the time, followed directly by `sec`.
pub open spec fn mean_line(mean: u64) -> Seq<char> {
    "avg: "@ + seconds_text(mean) + "sec"@
}

/// The line that gives the standard deviation in the same manner, or says that there
/// is none.
pub open spec fn deviation_line(deviation: Option<u64>) -> Seq<char> {
    match deviation {
        Some(nanos) => "std dev: "@ + seconds_text(nanos) + "sec"@,
        None => "std dev: N/A"@,
    }
}

/// The text of one decimal digit.
fn digit_text(digit: u8) -> (text: &'static str)
    requires
        digit < 10,
    ensures
        text@ == seq![digit_char(digit as nat)],
{
    proof {
        reveal_strlit("0");
        reveal_strlit("1");
        reveal_strlit("2");
        reveal_strlit("3");
        reveal_strlit("4");
        reveal_strlit("5");
        reveal_strlit("6");
        reveal_strlit("7");
        reveal_strlit("8");
        reveal_strlit("9");
    }
    let text = match digit {
        0 => "0",
        1 => "1",
        2 => "2",
        3 => "3",
        4 => "4",
        5 => "5",
        6 => "6",
        7 => "7",
        8 => "8",
        _ => "9",
    };
    text
}

/// The digits of `value` that are still to be written in front of those already there.
spec fn digits_to_come(value: nat) -> Seq<char> {
    if value == 0 {
        Seq::empty()
    } else {
        decimal(value)
    }
}

/// Writes a number in decimal digits.
fn decimal_text(value: u64) -> (text: String)
    ensures
        text@ == decimal(value as nat),
{
    let mut text = String::from_str(digit_text((value % 10) as u8));
    let mut rest = value / 10;
    while rest > 0
        invariant
            decimal(value as nat) == digits_to_come(rest as nat) + text@,
        decreases rest,
    {
        let ghost written = text@;
        let digit = digit_text((rest % 10) as u8);
        text = String::from_str(digit).concat(text.as_str());
        assert(digits_to_come(rest as nat) + written =~= digits_to_come((rest / 10) as nat)
            + text@);
        rest = rest / 10;
    }
    text
}

/// Writes a time given in nanoseconds in seconds with three decimals, rounded to the
/// nearest millisecond.
pub fn render_seconds(nanos: u64) -> (text: String)
    ensures
        text@ == seconds_text(nanos),
{
    let round_up: u64 = if nanos % 1_000_000 >= 500_000 { 1 } else { 0 };
    let millis = nanos / 1_000_000 + round_up;
    let mut text = decimal_text(millis / 1000);
    proof {
        reveal_strlit(".");
    }
    text.append(".");
    text.append(digit_text((millis / 100 % 10) as u8));
    text.append(digit_text((millis / 10 % 10) as u8));
    text.append(digit_text((millis % 10) as u8));
    text
}

/// Lays out the summary from the mean and the standard deviation, both in nanoseconds;
/// the standard deviation is absent when there is none to give.
pub fn summary_lines(mean: u64, deviation: Option<u64>) -> (lines: (String, String))
    ensures
        lines.0@ == mean_line(mean),
        lines.1@ == deviation_line(deviation),
{
    let mut first = String::from_str("avg: ");
    first.append(render_seconds(mean).as_str());
    first.append("sec");
    let second = match deviation {
        Some(nanos) => {
            let mut line = String::from_str("std dev: ");
            line.append(render_seconds(nanos).as_str());
            line.append("sec");
            line
        },
        None => String::from_str("std dev: N/A"),
    };
    (first, second)
}

} // verus!

//! One pure formatter per calendar field. Each receives the datetime
//! capability and the matched token text and returns the rendered text; the
//! token is only inspected for its length.
//!
//! | Token letter | Field                | Token letter | Field               |
//! |--------------|----------------------|--------------|---------------------|
//! |  `a`         | AM, PM               |  `M`         | Month               |
//! |  `d`         | Day of month         |  `s`         | Second              |
//! |  `h`         | Hour 1-12            |  `S`         | Fraction of second  |
//! |  `H`         | Hour 0-23            |  `y`         | Year (absolute)     |
//! |  `m`         | Minute               |              |                     |

use crate::types::DateTimeLike;
use crate::utils::{add_leading_zeroes, digits_string, spec_digits, spec_pad};
use vstd::prelude::*;

verus! {

/// Ten raised to `e`.
pub open spec fn spec_pow10(e: nat) -> nat
    decreases e,
{
    if e == 0 {
        1
    } else {
        10 * spec_pow10((e - 1) as nat)
    }
}

/// The calendar year shown for a signed astronomical year: positive years
/// stand for themselves, year zero is 1 BC, year -1 is 2 BC, and so on.
pub open spec fn spec_converted_year(signed_year: int) -> int {
    if signed_year > 0 {
        signed_year
    } else {
        1 - signed_year
    }
}

/// The clock-face hour for an hour of day: noon and midnight show as 12.
pub open spec fn spec_hour12(hour: int) -> int {
    if hour % 12 == 0 {
        12
    } else {
        hour % 12
    }
}

/// The text of a `y` token run: the converted year, two-digit truncated for
/// `yy`, zero-padded to the run length otherwise.
pub open spec fn spec_y<D: DateTimeLike>(dt: &D, token_len: nat) -> Seq<char> {
    let year = spec_converted_year(dt.spec_full_year() as int);
    if token_len == 2 {
        spec_pad(year % 100, 2)
    } else {
        spec_pad(year, token_len)
    }
}

/// The text of an `M` token run: unpadded for `M`, zero-padded to two
/// characters for any other length.
pub open spec fn spec_month_text<D: DateTimeLike>(dt: &D, token_len: nat) -> Seq<char> {
    if token_len == 1 {
        spec_digits(dt.spec_month() as nat)
    } else {
        spec_pad(dt.spec_month() as int, 2)
    }
}

/// The text of a `d` token run: the day, zero-padded to the run length.
pub open spec fn spec_day_text<D: DateTimeLike>(dt: &D, token_len: nat) -> Seq<char> {
    spec_pad(dt.spec_day() as int, token_len)
}

/// The text of an `a` token run: the day period, styled by the run length.
pub open spec fn spec_day_period_text<D: DateTimeLike>(dt: &D, token_len: nat) -> Seq<char> {
    let pm = dt.spec_hour() >= 12;
    if token_len == 1 || token_len == 2 {
        if pm {
            "PM"@
        } else {
            "AM"@
        }
    } else if token_len == 3 {
        if pm {
            "pm"@
        } else {
            "am"@
        }
    } else if token_len == 5 {
        if pm {
            "p"@
        } else {
            "a"@
        }
    } else {
        if pm {
            "p.m."@
        } else {
            "a.m."@
        }
    }
}

/// The text of an `h` token run: the clock-face hour, zero-padded.
pub open spec fn spec_hour12_text<D: DateTimeLike>(dt: &D, token_len: nat) -> Seq<char> {
    spec_pad(spec_hour12(dt.spec_hour() as int), token_len)
}

/// The text of an `H` token run: the hour of day, zero-padded.
pub open spec fn spec_hour24_text<D: DateTimeLike>(dt: &D, token_len: nat) -> Seq<char> {
    spec_pad(dt.spec_hour() as int, token_len)
}

/// The text of an `m` token run: the minute, zero-padded.
pub open spec fn spec_minute_text<D: DateTimeLike>(dt: &D, token_len: nat) -> Seq<char> {
    spec_pad(dt.spec_minute() as int, token_len)
}

/// The text of an `s` token run: the second, zero-padded.
pub open spec fn spec_second_text<D: DateTimeLike>(dt: &D, token_len: nat) -> Seq<char> {
    spec_pad(dt.spec_second() as int, token_len)
}

/// The text of an `S` token run: the first `L` digits of the six-digit
/// zero-padded microsecond value, with `L` the run length capped at six.
/// Truncates by integer division, never rounds.
pub open spec fn spec_fraction_text<D: DateTimeLike>(dt: &D, token_len: nat) -> Seq<char> {
    let eff = if token_len < 6 {
        token_len
    } else {
        6nat
    };
    spec_pad(dt.spec_microsecond() as int / spec_pow10((6 - eff) as nat) as int, eff)
}

/// Ten raised to any power is positive.
pub proof fn lemma_pow10_pos(e: nat)
    ensures
        spec_pow10(e) >= 1,
    decreases e,
{
    if e > 0 {
        lemma_pow10_pos((e - 1) as nat);
    }
}

/// The numeric value a zero-padded field token renders, before padding: the
/// quantity whose decimal digits appear in the output.
pub open spec fn spec_padded_field_value<D: DateTimeLike>(dt: &D, token: Seq<char>) -> int {
    let c = token[0];
    if c == 'y' {
        let year = spec_converted_year(dt.spec_full_year() as int);
        if token.len() == 2 {
            year % 100
        } else {
            year
        }
    } else if c == 'M' {
        dt.spec_month() as int
    } else if c == 'd' {
        dt.spec_day() as int
    } else if c == 'h' {
        spec_hour12(dt.spec_hour() as int)
    } else if c == 'H' {
        dt.spec_hour() as int
    } else if c == 'm' {
        dt.spec_minute() as int
    } else if c == 's' {
        dt.spec_second() as int
    } else if c == 'S' {
        let eff = if token.len() < 6 {
            token.len()
        } else {
            6nat
        };
        dt.spec_microsecond() as int / spec_pow10((6 - eff) as nat) as int
    } else {
        0
    }
}

fn pow10(e: u32) -> (r: u32)
    requires
        e <= 9,
    ensures
        r == spec_pow10(e as nat),
        r >= 1,
{
    proof {
        assert(spec_pow10(0) == 1);
        assert(spec_pow10(1) == 10);
        assert(spec_pow10(2) == 100);
        assert(spec_pow10(3) == 1000);
        assert(spec_pow10(4) == 10000);
        assert(spec_pow10(5) == 100000);
        assert(spec_pow10(6) == 1000000);
        assert(spec_pow10(7) == 10000000);
        assert(spec_pow10(8) == 100000000);
        assert(spec_pow10(9) == 1000000000);
    }
    match e {
        0 => 1,
        1 => 10,
        2 => 100,
        3 => 1000,
        4 => 10000,
        5 => 100000,
        6 => 1000000,
        7 => 10000000,
        8 => 100000000,
        _ => 1000000000,
    }
}

/// Year.
///
/// | Year     |   `y` | `yy` | `yyy` | `yyyy` | `yyyyy` |
/// |----------|-------|------|-------|--------|---------|
/// | AD 1     |     1 |   01 |   001 |   0001 |   00001 |
/// | AD 12    |    12 |   12 |   012 |   0012 |   00012 |
/// | AD 123   |   123 |   23 |   123 |   0123 |   00123 |
/// | AD 1234  |  1234 |   34 |  1234 |   1234 |   01234 |
/// | AD 12345 | 12345 |   45 | 12345 |  12345 |   12345 |
pub fn y<D: DateTimeLike>(datetime: &D, token: &str) -> (r: String)
    requires
        spec_converted_year(datetime.spec_full_year() as int) <= i32::MAX as int,
    ensures
        r@ == spec_y(datetime, token@.len()),
{
    let signed_year = datetime.full_year();
    let year: i32 = if signed_year > 0 {
        signed_year
    } else {
        (1i64 - signed_year as i64) as i32
    };
    let len = token.unicode_len();
    if len == 2 {
        add_leading_zeroes(year % 100, 2)
    } else {
        add_leading_zeroes(year, len)
    }
}

/// Month.
#[allow(non_snake_case)]
pub fn M<D: DateTimeLike>(datetime: &D, token: &str) -> (r: String)
    ensures
        r@ == spec_month_text(datetime, token@.len()),
{
    let month = datetime.month();
    if token.unicode_len() == 1 {
        digits_string(month)
    } else {
        add_leading_zeroes(month as i32, 2)
    }
}

/// Day of month.
pub fn d<D: DateTimeLike>(datetime: &D, token: &str) -> (r: String)
    ensures
        r@ == spec_day_text(datetime, token@.len()),
{
    add_leading_zeroes(datetime.day() as i32, token.unicode_len())
}

/// AM or PM.
pub fn a<D: DateTimeLike>(datetime: &D, token: &str) -> (r: String)
    ensures
        r@ == spec_day_period_text(datetime, token@.len()),
{
    let pm = datetime.hour() >= 12;
    let len = token.unicode_len();
    if len == 1 || len == 2 {
        if pm {
            String::from_str("PM")
        } else {
            String::from_str("AM")
        }
    } else if len == 3 {
        if pm {
            String::from_str("pm")
        } else {
            String::from_str("am")
        }
    } else if len == 5 {
        if pm {
            String::from_str("p")
        } else {
            String::from_str("a")
        }
    } else {
        if pm {
            String::from_str("p.m.")
        } else {
            String::from_str("a.m.")
        }
    }
}

/// Hour 1-12.
pub fn h<D: DateTimeLike>(datetime: &D, token: &str) -> (r: String)
    ensures
        r@ == spec_hour12_text(datetime, token@.len()),
{
    let mut hour = datetime.hour() % 12;
    if hour == 0 {
        hour = 12;
    }
    add_leading_zeroes(hour as i32, token.unicode_len())
}

/// Hour 0-23.
#[allow(non_snake_case)]
pub fn H<D: DateTimeLike>(datetime: &D, token: &str) -> (r: String)
    ensures
        r@ == spec_hour24_text(datetime, token@.len()),
{
    add_leading_zeroes(datetime.hour() as i32, token.unicode_len())
}

/// Minute.
pub fn m<D: DateTimeLike>(datetime: &D, token: &str) -> (r: String)
    ensures
        r@ == spec_minute_text(datetime, token@.len()),
{
    add_leading_zeroes(datetime.minute() as i32, token.unicode_len())
}

/// Second.
pub fn s<D: DateTimeLike>(datetime: &D, token: &str) -> (r: String)
    ensures
        r@ == spec_second_text(datetime, token@.len()),
{
    add_leading_zeroes(datetime.second() as i32, token.unicode_len())
}

/// Fraction of second.
#[allow(non_snake_case)]
pub fn S<D: DateTimeLike>(datetime: &D, token: &str) -> (r: String)
    ensures
        r@ == spec_fraction_text(datetime, token@.len()),
{
    let token_len = token.unicode_len();
    let len: usize = if token_len < 6 {
        token_len
    } else {
        6
    };
    let divisor = pow10((6 - len) as u32);
    let fraction = datetime.microsecond() / divisor;
    add_leading_zeroes(fraction as i32, len)
}

} // verus!

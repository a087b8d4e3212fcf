//! The formatter registry: routes a token's leading character to the field
//! formatter that renders it, and the era and year formatters, which consult
//! the locale.
//!
//! Implemented letters: `G` (era), `y` (year, including the ordinal token
//! `yo`), and the `M`/`d`/`a`/`h`/`H`/`m`/`s`/`S` family in
//! [`crate::light_formatters`]. All other ASCII letters are reserved; meeting
//! one unescaped is a pattern error.

use crate::light_formatters;
use crate::light_formatters::{
    spec_converted_year, spec_day_period_text, spec_day_text, spec_fraction_text,
    spec_hour12_text, spec_hour24_text, spec_minute_text, spec_month_text, spec_second_text,
    spec_y,
};
use crate::locale::{Era, EraWidth, Locale};
use crate::types::DateTimeLike;
use crate::{FormatError, Part};
use vstd::prelude::*;

verus! {

/// Identifies the field formatter a token is routed to.
#[derive(Clone, Copy, PartialEq, Eq, Structural, Debug)]
pub enum FormatterKind {
    Era,
    Year,
    Month,
    DayOfMonth,
    DayPeriod,
    Hour12,
    Hour24,
    Minute,
    Second,
    SecondFraction,
}

/// The field formatter registered for a token's leading character, if any.
pub open spec fn spec_get_formatter(first_char: char) -> Option<FormatterKind> {
    if first_char == 'G' {
        Some(FormatterKind::Era)
    } else if first_char == 'y' {
        Some(FormatterKind::Year)
    } else if first_char == 'M' {
        Some(FormatterKind::Month)
    } else if first_char == 'd' {
        Some(FormatterKind::DayOfMonth)
    } else if first_char == 'a' {
        Some(FormatterKind::DayPeriod)
    } else if first_char == 'h' {
        Some(FormatterKind::Hour12)
    } else if first_char == 'H' {
        Some(FormatterKind::Hour24)
    } else if first_char == 'm' {
        Some(FormatterKind::Minute)
    } else if first_char == 's' {
        Some(FormatterKind::Second)
    } else if first_char == 'S' {
        Some(FormatterKind::SecondFraction)
    } else {
        None
    }
}

/// Whether a field formatter is registered for this leading character.
pub fn is_formatter(first_char: char) -> (r: bool)
    ensures
        r == (spec_get_formatter(first_char) is Some),
{
    match first_char {
        'G' | 'y' | 'M' | 'd' | 'a' | 'h' | 'H' | 'm' | 's' | 'S' => true,
        _ => false,
    }
}

/// Looks up the field formatter for a token's leading character.
pub fn get_formatter(first_char: char) -> (r: Option<FormatterKind>)
    ensures
        r == spec_get_formatter(first_char),
{
    match first_char {
        'G' => Some(FormatterKind::Era),
        'y' => Some(FormatterKind::Year),
        'M' => Some(FormatterKind::Month),
        'd' => Some(FormatterKind::DayOfMonth),
        'a' => Some(FormatterKind::DayPeriod),
        'h' => Some(FormatterKind::Hour12),
        'H' => Some(FormatterKind::Hour24),
        'm' => Some(FormatterKind::Minute),
        's' => Some(FormatterKind::Second),
        'S' => Some(FormatterKind::SecondFraction),
        _ => None,
    }
}

/// The era a datetime falls in: AD for positive years, BC otherwise.
pub open spec fn spec_era_of<D: DateTimeLike>(dt: &D) -> Era {
    if dt.spec_full_year() > 0 {
        Era::AD
    } else {
        Era::BC
    }
}

/// The era width selected by a `G` run's length: wide for four letters,
/// narrow for five, abbreviated for one to three, wide for anything else.
pub open spec fn spec_era_width(token_len: nat) -> EraWidth {
    if token_len == 4 {
        EraWidth::Wide
    } else if token_len == 5 {
        EraWidth::Narrow
    } else if 1 <= token_len <= 3 {
        EraWidth::Abbreviated
    } else {
        EraWidth::Wide
    }
}

/// Era.
pub fn era_formatter<D: DateTimeLike, L: Locale>(datetime: &D, token: &str, locale: &L) -> (r:
    String)
    ensures
        r@ == locale.era_spec(spec_era_of(datetime), spec_era_width(token@.len())),
{
    let era = if datetime.full_year() > 0 {
        Era::AD
    } else {
        Era::BC
    };
    let len = token.unicode_len();
    let era_width = if len == 4 {
        EraWidth::Wide
    } else if len == 5 {
        EraWidth::Narrow
    } else if 1 <= len && len <= 3 {
        EraWidth::Abbreviated
    } else {
        EraWidth::Wide
    };
    locale.era(era, era_width)
}

/// The text of a `y` family token, or the overflow error when the converted
/// year does not fit the formatter's integer width: `yo` renders the locale's
/// ordinal, every other token the zero-padded year of [`spec_y`].
pub open spec fn spec_year_token<D: DateTimeLike, L: Locale>(
    dt: &D,
    token: Seq<char>,
    locale: &L,
) -> Result<Seq<char>, FormatError> {
    let year = spec_converted_year(dt.spec_full_year() as int);
    if year > i32::MAX as int {
        Err(FormatError::NumericOverflow)
    } else if token.len() == 2 && token[1] == 'o' {
        Ok(locale.ordinal_spec(year as u32))
    } else {
        Ok(spec_y(dt, token.len()))
    }
}

/// Year, including the ordinal token `yo`.
pub fn year_formatter<D: DateTimeLike, L: Locale>(datetime: &D, token: &str, locale: &L) -> (r:
    Result<String, FormatError>)
    requires
        token@.len() >= 1,
    ensures
        (match (r, spec_year_token(datetime, token@, locale)) {
            (Ok(s), Ok(m)) => s@ == m,
            (Err(e), Err(me)) => e == me,
            _ => false,
        }),
{
    let signed_year = datetime.full_year();
    let converted: i64 = if signed_year > 0 {
        signed_year as i64
    } else {
        1i64 - signed_year as i64
    };
    if converted > i32::MAX as i64 {
        return Err(FormatError::NumericOverflow);
    }
    let len = token.unicode_len();
    if len == 2 && token.get_char(1) == 'o' {
        Ok(locale.ordinal_number(converted as u32))
    } else {
        Ok(light_formatters::y(datetime, token))
    }
}

/// The text one part contributes to the output, or the error it raises: a
/// literal passes through; a token is routed by its leading character to its
/// field formatter; an unregistered ASCII letter is a pattern error naming
/// the character and its position; any other unregistered run passes through.
pub open spec fn spec_render_part<D: DateTimeLike, L: Locale>(
    dt: &D,
    part: Part,
    locale: &L,
) -> Result<Seq<char>, FormatError> {
    if !part.is_token {
        Ok(part.value)
    } else {
        let c = part.value[0];
        match spec_get_formatter(c) {
            Some(FormatterKind::Era) => Ok(
                locale.era_spec(spec_era_of(dt), spec_era_width(part.value.len())),
            ),
            Some(FormatterKind::Year) => spec_year_token(dt, part.value, locale),
            Some(FormatterKind::Month) => Ok(spec_month_text(dt, part.value.len())),
            Some(FormatterKind::DayOfMonth) => Ok(spec_day_text(dt, part.value.len())),
            Some(FormatterKind::DayPeriod) => Ok(spec_day_period_text(dt, part.value.len())),
            Some(FormatterKind::Hour12) => Ok(spec_hour12_text(dt, part.value.len())),
            Some(FormatterKind::Hour24) => Ok(spec_hour24_text(dt, part.value.len())),
            Some(FormatterKind::Minute) => Ok(spec_minute_text(dt, part.value.len())),
            Some(FormatterKind::Second) => Ok(spec_second_text(dt, part.value.len())),
            Some(FormatterKind::SecondFraction) => Ok(spec_fraction_text(dt, part.value.len())),
            None => if crate::spec_is_ascii_letter(c) {
                Err(
                    FormatError::UnsupportedToken {
                        ch: c,
                        position: part.pos as usize,
                    },
                )
            } else {
                Ok(part.value)
            },
        }
    }
}

} // verus!

use chrono::{Datelike, Timelike};
use datefmt::datetime_format;
use datefmt::locale::{Era, EraWidth, Locale};
use datefmt::locales::en::En;
use datefmt::locales::Locales;
use datefmt::types::{DateTimeLike, PlainDateTime};
use datefmt::FormatError;

struct ChronoDateTime(chrono::NaiveDateTime);

impl DateTimeLike for ChronoDateTime {
    // The spec_* members exist only for verified callers; nothing executes them.
    fn spec_full_year(&self) -> i32 {
        self.0.year()
    }
    fn spec_month(&self) -> u32 {
        Datelike::month(&self.0)
    }
    fn spec_day(&self) -> u32 {
        Datelike::day(&self.0)
    }
    fn spec_hour(&self) -> u32 {
        Timelike::hour(&self.0)
    }
    fn spec_minute(&self) -> u32 {
        Timelike::minute(&self.0)
    }
    fn spec_second(&self) -> u32 {
        Timelike::second(&self.0)
    }
    fn spec_microsecond(&self) -> u32 {
        Timelike::nanosecond(&self.0) / 1_000
    }
    fn full_year(&self) -> i32 {
        self.0.year()
    }
    fn month(&self) -> u32 {
        Datelike::month(&self.0)
    }
    fn day(&self) -> u32 {
        Datelike::day(&self.0)
    }
    fn hour(&self) -> u32 {
        Timelike::hour(&self.0)
    }
    fn minute(&self) -> u32 {
        Timelike::minute(&self.0)
    }
    fn second(&self) -> u32 {
        Timelike::second(&self.0)
    }
    fn microsecond(&self) -> u32 {
        Timelike::nanosecond(&self.0) / 1_000
    }
}

fn plain(year: i32, month: u32, day: u32, hour: u32, minute: u32, second: u32) -> PlainDateTime {
    PlainDateTime::new(year, month, day, hour, minute, second, 0).unwrap()
}

fn fmt(datetime: PlainDateTime, pattern: &str) -> Result<String, FormatError> {
    datetime_format(datetime, pattern, Locales::<En>::En)
}

#[test]
fn era_works() {
    let datetime = chrono::NaiveDate::from_ymd_opt(2020, 4, 12)
        .unwrap()
        .and_hms_opt(9, 10, 11)
        .unwrap();

    assert_eq!(
        datetime_format(ChronoDateTime(datetime), "GG", Locales::<En>::En).unwrap(),
        "AD"
    );
}

#[test]
fn escaping_yields_literal_quotes() {
    let d = plain(2020, 4, 12, 9, 10, 11);
    assert_eq!(fmt(d, "''").unwrap(), "'");
    let d = plain(2020, 4, 12, 9, 10, 11);
    assert_eq!(fmt(d, "'hello'").unwrap(), "hello");
    let d = plain(2020, 4, 12, 9, 10, 11);
    assert_eq!(fmt(d, "'it''s'").unwrap(), "it's");
}

#[test]
fn unterminated_quote_extends_to_end() {
    let d = plain(2020, 4, 12, 9, 10, 11);
    assert_eq!(fmt(d, "'hello").unwrap(), "hello");
}

#[test]
fn year_conversion_for_bc_years() {
    let d = plain(0, 1, 1, 0, 0, 0);
    assert_eq!(fmt(d, "y").unwrap(), "1");
    let d = plain(-1, 1, 1, 0, 0, 0);
    assert_eq!(fmt(d, "y").unwrap(), "2");
}

#[test]
fn year_widths() {
    let d = plain(123, 1, 1, 0, 0, 0);
    assert_eq!(fmt(d, "y").unwrap(), "123");
    let d = plain(123, 1, 1, 0, 0, 0);
    assert_eq!(fmt(d, "yy").unwrap(), "23");
    let d = plain(123, 1, 1, 0, 0, 0);
    assert_eq!(fmt(d, "yyyy").unwrap(), "0123");
    let d = plain(12345, 1, 1, 0, 0, 0);
    assert_eq!(fmt(d, "yyyy").unwrap(), "12345");
    let d = plain(12345, 1, 1, 0, 0, 0);
    assert_eq!(fmt(d, "yy").unwrap(), "45");
}

#[test]
fn era_vocabulary() {
    let d = plain(2020, 1, 1, 0, 0, 0);
    assert_eq!(fmt(d, "GG").unwrap(), "AD");
    let d = plain(-5, 1, 1, 0, 0, 0);
    assert_eq!(fmt(d, "GGGG").unwrap(), "Before Christ");
    let d = plain(2020, 1, 1, 0, 0, 0);
    assert_eq!(fmt(d, "GGGG").unwrap(), "Anno Domini");
    let d = plain(-5, 1, 1, 0, 0, 0);
    assert_eq!(fmt(d, "GGGGG").unwrap(), "B");
    let d = plain(2020, 1, 1, 0, 0, 0);
    assert_eq!(fmt(d, "GGGGG").unwrap(), "A");
    let d = plain(0, 1, 1, 0, 0, 0);
    assert_eq!(fmt(d, "G").unwrap(), "BC");
}

#[test]
fn day_period_styles() {
    let d = plain(2020, 1, 1, 0, 0, 0);
    assert_eq!(fmt(d, "a").unwrap(), "AM");
    let d = plain(2020, 1, 1, 23, 0, 0);
    assert_eq!(fmt(d, "aaaa").unwrap(), "p.m.");
    let d = plain(2020, 1, 1, 12, 0, 0);
    assert_eq!(fmt(d, "aa").unwrap(), "PM");
    let d = plain(2020, 1, 1, 11, 0, 0);
    assert_eq!(fmt(d, "aaa").unwrap(), "am");
    let d = plain(2020, 1, 1, 13, 0, 0);
    assert_eq!(fmt(d, "aaaaa").unwrap(), "p");
    let d = plain(2020, 1, 1, 3, 0, 0);
    assert_eq!(fmt(d, "aaaa").unwrap(), "a.m.");
}

#[test]
fn subsecond_fraction_truncates() {
    let d = PlainDateTime::new(2020, 1, 1, 0, 0, 0, 123456).unwrap();
    assert_eq!(fmt(d, "SSS").unwrap(), "123");
    let d = PlainDateTime::new(2020, 1, 1, 0, 0, 0, 123456).unwrap();
    assert_eq!(fmt(d, "SSSSSS").unwrap(), "123456");
    let d = PlainDateTime::new(2020, 1, 1, 0, 0, 0, 5000).unwrap();
    assert_eq!(fmt(d, "SS").unwrap(), "00");
    let d = PlainDateTime::new(2020, 1, 1, 0, 0, 0, 5000).unwrap();
    assert_eq!(fmt(d, "SSSS").unwrap(), "0050");
}

#[test]
fn punctuation_and_quoted_text_round_trip() {
    let d1 = plain(2020, 4, 12, 9, 10, 11);
    let d2 = plain(-44, 3, 15, 23, 59, 58);
    assert_eq!(fmt(d1, ".:-/, '[quoted]'!").unwrap(), ".:-/, [quoted]!");
    assert_eq!(fmt(d2, ".:-/, '[quoted]'!").unwrap(), ".:-/, [quoted]!");
}

#[test]
fn unsupported_letter_is_an_error() {
    let d = plain(2020, 4, 12, 9, 10, 11);
    match fmt(d, "yyyy-Qx") {
        Err(FormatError::UnsupportedToken { ch, position }) => {
            assert_eq!(ch, 'Q');
            assert_eq!(position, 5);
        }
        other => panic!("expected an unsupported-token error, got {:?}", other),
    }
    let d = plain(2020, 4, 12, 9, 10, 11);
    assert!(fmt(d, "x").is_err());
}

#[test]
fn year_overflow_is_an_error() {
    let d = plain(i32::MIN, 1, 1, 0, 0, 0);
    assert_eq!(fmt(d, "y"), Err(FormatError::NumericOverflow));
    let d = plain(i32::MIN, 1, 1, 0, 0, 0);
    assert_eq!(fmt(d, "yo"), Err(FormatError::NumericOverflow));
}

#[test]
fn ordinal_tokens() {
    let d = plain(2024, 4, 11, 0, 0, 0);
    assert_eq!(fmt(d, "yo").unwrap(), "2024th");
    let d = plain(2021, 4, 11, 0, 0, 0);
    assert_eq!(fmt(d, "yo").unwrap(), "2021st");
    let d = plain(2024, 4, 11, 0, 0, 0);
    assert_eq!(fmt(d, "do").unwrap(), "11");
    let d = plain(2024, 4, 11, 0, 0, 0);
    assert_eq!(fmt(d, "Mo").unwrap(), "04");
}

#[test]
fn month_day_and_time_tokens() {
    let d = plain(2020, 4, 2, 5, 7, 9);
    assert_eq!(fmt(d, "M").unwrap(), "4");
    let d = plain(2020, 4, 2, 5, 7, 9);
    assert_eq!(fmt(d, "MM").unwrap(), "04");
    let d = plain(2020, 12, 2, 5, 7, 9);
    assert_eq!(fmt(d, "M").unwrap(), "12");
    let d = plain(2020, 4, 2, 5, 7, 9);
    assert_eq!(fmt(d, "MMM").unwrap(), "04");
    let d = plain(2020, 4, 2, 5, 7, 9);
    assert_eq!(fmt(d, "dd").unwrap(), "02");
    let d = plain(2020, 4, 2, 5, 7, 9);
    assert_eq!(fmt(d, "HH:mm:ss").unwrap(), "05:07:09");
    let d = plain(2020, 4, 2, 17, 7, 9);
    assert_eq!(fmt(d, "yyyy-MM-dd HH:mm:ss").unwrap(), "2020-04-02 17:07:09");
}

#[test]
fn hour12_maps_zero_to_twelve() {
    let d = plain(2020, 1, 1, 0, 0, 0);
    assert_eq!(fmt(d, "h").unwrap(), "12");
    let d = plain(2020, 1, 1, 12, 0, 0);
    assert_eq!(fmt(d, "h").unwrap(), "12");
    let d = plain(2020, 1, 1, 13, 0, 0);
    assert_eq!(fmt(d, "h").unwrap(), "1");
    let d = plain(2020, 1, 1, 23, 0, 0);
    assert_eq!(fmt(d, "hh").unwrap(), "11");
}

#[test]
fn zero_padded_output_matches_token_length() {
    let d = plain(2020, 4, 2, 5, 7, 9);
    assert_eq!(fmt(d, "ddd").unwrap().len(), 3);
    let d = plain(2020, 4, 2, 5, 7, 9);
    assert_eq!(fmt(d, "HHHH").unwrap().len(), 4);
    let d = plain(2020, 4, 2, 5, 7, 9);
    assert_eq!(fmt(d, "mmmmm").unwrap().len(), 5);
    let d = plain(2020, 4, 2, 5, 7, 9);
    assert_eq!(fmt(d, "ss").unwrap().len(), 2);
}

#[test]
fn empty_pattern_formats_to_empty_text() {
    let d = plain(2020, 4, 2, 5, 7, 9);
    assert_eq!(fmt(d, "").unwrap(), "");
}

#[test]
fn plain_datetime_rejects_out_of_range_fields() {
    assert!(PlainDateTime::new(2020, 0, 1, 0, 0, 0, 0).is_none());
    assert!(PlainDateTime::new(2020, 13, 1, 0, 0, 0, 0).is_none());
    assert!(PlainDateTime::new(2020, 1, 32, 0, 0, 0, 0).is_none());
    assert!(PlainDateTime::new(2020, 1, 1, 24, 0, 0, 0).is_none());
    assert!(PlainDateTime::new(2020, 1, 1, 0, 60, 0, 0).is_none());
    assert!(PlainDateTime::new(2020, 1, 1, 0, 0, 60, 0).is_none());
    assert!(PlainDateTime::new(2020, 1, 1, 0, 0, 0, 2_000_000).is_none());
    assert!(PlainDateTime::new(2020, 1, 1, 0, 0, 0, 1_999_999).is_some());
}

#[test]
fn en_locale_vocabulary() {
    let en = En;
    assert_eq!(en.era(Era::AD, EraWidth::Abbreviated), "AD");
    assert_eq!(en.era(Era::BC, EraWidth::Wide), "Before Christ");
    assert_eq!(en.ordinal_number(1), "1st");
    assert_eq!(en.ordinal_number(2), "2nd");
    assert_eq!(en.ordinal_number(3), "3rd");
    assert_eq!(en.ordinal_number(4), "4th");
    assert_eq!(en.ordinal_number(11), "11th");
    assert_eq!(en.ordinal_number(12), "12th");
    assert_eq!(en.ordinal_number(13), "13th");
    assert_eq!(en.ordinal_number(21), "21st");
    assert_eq!(en.ordinal_number(101), "101st");
    assert_eq!(en.ordinal_number(111), "111th");
}

struct Shouty;

impl Locale for Shouty {
    // The spec members exist only for verified callers; nothing executes them.
    fn era_spec(&self, _era: Era, _era_width: EraWidth) -> vstd::seq::Seq<char> {
        panic!()
    }
    fn ordinal_spec(&self, _num: u32) -> vstd::seq::Seq<char> {
        panic!()
    }
    fn era(&self, era: Era, _era_width: EraWidth) -> String {
        match era {
            Era::BC => "BEFORE".to_string(),
            Era::AD => "AFTER".to_string(),
        }
    }
    fn ordinal_number(&self, num: u32) -> String {
        format!("#{}", num)
    }
}

#[test]
fn custom_locale_is_consulted() {
    let d = plain(2020, 4, 12, 9, 10, 11);
    assert_eq!(
        datetime_format(d, "G", Locales::Custom(Shouty)).unwrap(),
        "AFTER"
    );
    let d = plain(2020, 4, 12, 9, 10, 11);
    assert_eq!(
        datetime_format(d, "yo", Locales::Custom(Shouty)).unwrap(),
        "#2020"
    );
}

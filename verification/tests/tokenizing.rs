use datefmt::locales::en::En;
use datefmt::locales::Locales;
use datefmt::types::PlainDateTime;
use datefmt::{datetime_format, preprocess_long_tokens, tokenize, FormatError};

fn plain(year: i32, month: u32, day: u32, hour: u32, minute: u32, second: u32) -> PlainDateTime {
    PlainDateTime::new(year, month, day, hour, minute, second, 0).unwrap()
}

fn fmt(datetime: PlainDateTime, pattern: &str) -> Result<String, FormatError> {
    datetime_format(datetime, pattern, Locales::<En>::En)
}

#[test]
fn tokenize_splits_runs_literals_and_quotes() {
    let parts = tokenize("yyyy-MM'T'");
    let shape: Vec<(bool, &str, usize)> = parts
        .iter()
        .map(|p| (p.is_token, p.value.as_str(), p.pos))
        .collect();
    assert_eq!(
        shape,
        vec![
            (true, "yyyy", 0),
            (false, "-", 4),
            (true, "MM", 5),
            (false, "T", 7),
        ]
    );
}

#[test]
fn tokenize_takes_ordinal_tokens_first() {
    let parts = tokenize("do");
    assert_eq!(parts.len(), 1);
    assert!(parts[0].is_token);
    assert_eq!(parts[0].value, "do");
}

#[test]
fn preprocessing_leaves_the_pattern_unchanged() {
    assert_eq!(preprocess_long_tokens("PPPppp'x'y"), "PPPppp'x'y");
    assert_eq!(preprocess_long_tokens(""), "");
}

#[test]
fn digit_runs_pass_through() {
    let d = plain(1999, 4, 2, 5, 7, 9);
    assert_eq!(fmt(d, "12:34").unwrap(), "12:34");
    let d = plain(1999, 4, 2, 5, 7, 9);
    assert_eq!(fmt(d, "__77__").unwrap(), "__77__");
}

#[test]
fn doubled_quote_inside_and_outside_spans() {
    let d = plain(1999, 4, 2, 5, 7, 9);
    assert_eq!(fmt(d, "''''").unwrap(), "''");
    let d = plain(1999, 4, 2, 5, 7, 9);
    assert_eq!(fmt(d, "o''clock").is_err(), true);
    let d = plain(1999, 4, 2, 5, 7, 9);
    assert_eq!(fmt(d, "'o''clock'").unwrap(), "o'clock");
}

#[test]
fn quoted_letters_are_not_tokens() {
    let d = plain(1999, 4, 2, 5, 7, 9);
    assert_eq!(fmt(d, "yyyy'y'").unwrap(), "1999y");
}

#[test]
fn leap_second_fraction_keeps_leading_digit() {
    let d = PlainDateTime::new(2016, 12, 31, 23, 59, 59, 1_500_000).unwrap();
    assert_eq!(fmt(d, "SSSSSS").unwrap(), "1500000");
    let d = PlainDateTime::new(2016, 12, 31, 23, 59, 59, 1_500_000).unwrap();
    assert_eq!(fmt(d, "SSS").unwrap(), "1500");
    let d = PlainDateTime::new(2016, 12, 31, 23, 59, 59, 999_999).unwrap();
    assert_eq!(fmt(d, "SSSSSSSS").unwrap(), "999999");
}

#[test]
fn long_tokens_currently_reach_the_registry_unexpanded() {
    let d = plain(1999, 4, 2, 5, 7, 9);
    match fmt(d, "PP") {
        Err(FormatError::UnsupportedToken { ch, position }) => {
            assert_eq!(ch, 'P');
            assert_eq!(position, 0);
        }
        other => panic!("expected an unsupported-token error, got {:?}", other),
    }
}

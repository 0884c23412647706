use pledger::parser::ast::{CalendarDate, ParsedDate};
use pledger::parser::common::date::{date_from, parse};
use pledger::parser::error::{ErrorKind, Failure, ParseError, Severity};

fn error(input: &str, code: ErrorKind) -> ParseError<'_> {
    ParseError {
        severity: Severity::Error,
        input,
        code,
    }
}

fn day(year: i32, month: u32, day: u32) -> CalendarDate {
    CalendarDate { year, month, day }
}

fn get_full_test_date(separator: char) -> (String, CalendarDate) {
    (format!("2021{0}10{0}07", separator), day(2021, 10, 7))
}

fn get_partial_test_date(separator: char) -> (String, CalendarDate) {
    (format!("10{0}07", separator), day(2021, 10, 7))
}

#[test]
fn parses_full_hyphen_separated_date() {
    let (input, expected_date) = get_full_test_date('-');
    assert_eq!(parse(&input), Ok(("", ParsedDate::Full(expected_date))))
}

#[test]
fn parses_full_period_separated_date() {
    let (input, expected_date) = get_full_test_date('.');
    assert_eq!(parse(&input), Ok(("", ParsedDate::Full(expected_date))))
}

#[test]
fn parses_full_slash_separated_date() {
    let (input, expected_date) = get_full_test_date('/');
    assert_eq!(parse(&input), Ok(("", ParsedDate::Full(expected_date))))
}

#[test]
fn parses_partial_hyphen_separated_date() {
    let (input, expected_date) = get_partial_test_date('-');
    assert_eq!(parse(&input), Ok(("", ParsedDate::Partial(expected_date))))
}

#[test]
fn parses_partial_period_separated_date() {
    let (input, expected_date) = get_partial_test_date('.');
    assert_eq!(parse(&input), Ok(("", ParsedDate::Partial(expected_date))))
}

#[test]
fn parses_partial_slash_separated_date() {
    let (input, expected_date) = get_partial_test_date('/');
    assert_eq!(parse(&input), Ok(("", ParsedDate::Partial(expected_date))))
}

#[test]
fn parses_date_and_returns_rest_of_line() {
    let (input, expected_date) = get_full_test_date('-');
    assert_eq!(
        parse(&format!("{} test", input)),
        Ok(("test", ParsedDate::Full(expected_date)))
    )
}

#[test]
fn date_errors_when_empty() {
    assert_eq!(parse(""), Err(error("", ErrorKind::TakeWhile1)))
}

#[test]
fn errors_when_date_starts_with_space() {
    assert_eq!(
        parse(" 2021-10-07"),
        Err(error(" 2021-10-07", ErrorKind::TakeWhile1))
    )
}

#[test]
fn errors_when_date_is_invalid() {
    assert_eq!(
        parse("2020#02#01"),
        Err(error("2020#02#01", ErrorKind::MapRes))
    )
}

#[test]
fn same_date_whatever_the_separator() {
    let hyphen = parse("2024-02-29").unwrap().1;
    let slash = parse("2024/02/29").unwrap().1;
    let period = parse("2024.02.29").unwrap().1;
    assert_eq!(hyphen, ParsedDate::Full(day(2024, 2, 29)));
    assert_eq!(slash, hyphen);
    assert_eq!(period, hyphen);
}

#[test]
fn date_takes_short_numbers_as_they_are_written() {
    assert_eq!(parse("2021-1-7"), Ok(("", ParsedDate::Full(day(2021, 1, 7)))));
    assert_eq!(parse("3/9"), Ok(("", ParsedDate::Partial(day(2021, 3, 9)))));
}

#[test]
fn errors_when_day_is_not_in_the_month() {
    assert_eq!(parse("04-31"), Err(error("04-31", ErrorKind::MapRes)));
    assert_eq!(parse("2021-04-31"), Err(error("2021-04-31", ErrorKind::MapRes)));
    assert_eq!(parse("2021-02-29"), Err(error("2021-02-29", ErrorKind::MapRes)));
    assert_eq!(parse("2021.13.01"), Err(error("2021.13.01", ErrorKind::MapRes)));
    assert_eq!(parse("02/29"), Err(error("02/29", ErrorKind::MapRes)));
}

#[test]
fn errors_when_separators_are_mixed_or_misplaced() {
    assert_eq!(parse("2021-10/07"), Err(error("2021-10/07", ErrorKind::MapRes)));
    assert_eq!(parse("2021--07"), Err(error("2021--07", ErrorKind::MapRes)));
    assert_eq!(parse("2021-10-07-01"), Err(error("2021-10-07-01", ErrorKind::MapRes)));
    assert_eq!(parse("2021"), Err(error("2021", ErrorKind::MapRes)));
    assert_eq!(parse("-5-10-07"), Err(error("-5-10-07", ErrorKind::TakeWhile1)));
    assert_eq!(parse("./."), Err(error("./.", ErrorKind::MapRes)));
}

#[test]
fn date_consumes_the_white_space_behind_it() {
    assert_eq!(
        parse("2021-10-07 \t\r\n  next"),
        Ok(("next", ParsedDate::Full(day(2021, 10, 7))))
    );
    assert_eq!(
        parse("2021-10-07!"),
        Ok(("!", ParsedDate::Full(day(2021, 10, 7))))
    );
}

#[test]
fn date_from_keeps_the_date_or_refuses_the_token() {
    assert_eq!(date_from(Some(day(2021, 10, 7)), 2, 12), Ok((12, day(2021, 10, 7))));
    assert_eq!(
        date_from(None, 2, 12),
        Err(Failure {
            severity: Severity::Error,
            at: 2,
            code: ErrorKind::MapRes
        })
    );
}

#[test]
fn default_date_is_a_full_date_of_the_calendar() {
    match ParsedDate::default() {
        ParsedDate::Full(date) => {
            assert!(date.year >= 2024);
            assert!(1 <= date.month && date.month <= 12);
            assert!(1 <= date.day && date.day <= 31);
        }
        ParsedDate::Partial(_) => panic!("the default date has a year"),
    }
    let date = ParsedDate::Partial(day(2021, 10, 7));
    assert_eq!(date.day_and_month(), (7, 10));
}

//! Dates: `2021-10-07`, `2021/10/07`, `2021.10.07`, and the same without
//! the year.

use chrono::Datelike;
use vstd::prelude::*;

use crate::parser::ast::{CalendarDate, ParsedDate};
use crate::parser::error::{
    agrees, conclude, error_at, reports, within, ErrorKind, Failure, Outcome, ParseError,
    Rejection,
};
use crate::text::{
    all_in, chars_of, decimal_value, lemma_run_end, lemma_run_end_in_prefix, lemma_run_end_is,
    numeric_char, run_end, scan, text_of, CharClass,
};

verus! {

/// The date that chrono's `NaiveDate::parse_from_str` reads, in the format
/// `%Y-%m-%d`, from the three texts joined by hyphens; `None` where it
/// rejects them.
pub uninterp spec fn calendar_date(year: Seq<char>, month: Seq<char>, day: Seq<char>) -> Option<
    CalendarDate,
>;

/// Whether the date has the year, the month and the day that the three
/// texts spell, where they are made of ASCII digits.
pub open spec fn as_written(
    date: CalendarDate,
    year: Seq<char>,
    month: Seq<char>,
    day: Seq<char>,
) -> bool {
    all_in(year, CharClass::AsciiDigit) && all_in(month, CharClass::AsciiDigit) && all_in(
        day,
        CharClass::AsciiDigit,
    ) ==> date.year == decimal_value(year) && date.month == decimal_value(month) && date.day
        == decimal_value(day)
}

/// Calls `NaiveDate::parse_from_str` on `year-month-day` with the format
/// `%Y-%m-%d`, and takes the date apart with `Datelike::year`, `month` and
/// `day`. The contract names the result `calendar_date`, and says of a date
/// that was read what chrono documents: it is a day of the calendar, and
/// where the three texts are ASCII digits its year, month and day are the
/// numbers that they spell.
#[verifier::external_body]
fn read_date(year: &str, month: &str, day: &str) -> (date: Option<CalendarDate>)
    ensures
        date == calendar_date(year@, month@, day@),
        date matches Some(d) ==> d.is_valid(),
        date matches Some(d) ==> as_written(d, year@, month@, day@),
{
    let text = format!("{}-{}-{}", year, month, day);
    match chrono::NaiveDate::parse_from_str(&text, "%Y-%m-%d") {
        Ok(date) => Some(CalendarDate { year: date.year(), month: date.month(), day: date.day() }),
        Err(_) => None,
    }
}

/// The year that a date written without one is given for the time being.
pub open spec fn provisional_year() -> Seq<char> {
    seq!['2', '0', '2', '1']
}

/// The three numbers of the date token at `from`, for one separator: the
/// token is the run of numeric characters and separators, and it has to
/// be three runs of numeric characters with one separator between each
/// two.
pub open spec fn full_numbers_at(s: Seq<char>, from: int, separator: char) -> Option<
    (Seq<char>, Seq<char>, Seq<char>),
> {
    let end = run_end(s, from, CharClass::Date(separator));
    let year_end = run_end(s, from, CharClass::DateNumber(separator));
    let month_end = run_end(s, year_end + 1, CharClass::DateNumber(separator));
    let day_end = run_end(s, month_end + 1, CharClass::DateNumber(separator));
    if from < year_end < end && year_end + 1 < month_end < end && month_end + 1 < day_end
        && day_end == end {
        Some(
            (
                s.subrange(from, year_end),
                s.subrange(year_end + 1, month_end),
                s.subrange(month_end + 1, day_end),
            ),
        )
    } else {
        None
    }
}

/// The two numbers of the date token at `from`, for one separator: as the
/// three of a full date.
pub open spec fn partial_numbers_at(s: Seq<char>, from: int, separator: char) -> Option<
    (Seq<char>, Seq<char>),
> {
    let end = run_end(s, from, CharClass::Date(separator));
    let month_end = run_end(s, from, CharClass::DateNumber(separator));
    let day_end = run_end(s, month_end + 1, CharClass::DateNumber(separator));
    if from < month_end < end && month_end + 1 < day_end && day_end == end {
        Some((s.subrange(from, month_end), s.subrange(month_end + 1, day_end)))
    } else {
        None
    }
}

/// The date token that starts at `from` and ends at `end`, given what was
/// made of its numbers: it is refused where they are no date.
pub open spec fn date_of(date: Option<CalendarDate>, from: int, end: int) -> Outcome<CalendarDate> {
    match date {
        Some(date) => Ok((end, date)),
        None => Err(error_at(from, ErrorKind::MapRes)),
    }
}

/// A date with its year at `from`, for one separator. Without a token the
/// rule does not match; a token that is not three numbers, or whose
/// numbers are no date, is refused.
pub open spec fn full_date_at(s: Seq<char>, from: int, separator: char) -> Outcome<CalendarDate> {
    let end = run_end(s, from, CharClass::Date(separator));
    if end == from {
        Err(error_at(from, ErrorKind::TakeWhile1))
    } else {
        match full_numbers_at(s, from, separator) {
            Some((year, month, day)) => date_of(calendar_date(year, month, day), from, end),
            None => Err(error_at(from, ErrorKind::MapRes)),
        }
    }
}

/// A date without its year at `from`, for one separator: as the full
/// date, with two numbers, and with the provisional year for the third.
pub open spec fn partial_date_at(s: Seq<char>, from: int, separator: char) -> Outcome<
    CalendarDate,
> {
    let end = run_end(s, from, CharClass::Date(separator));
    if end == from {
        Err(error_at(from, ErrorKind::TakeWhile1))
    } else {
        match partial_numbers_at(s, from, separator) {
            Some((month, day)) => date_of(
                calendar_date(provisional_year(), month, day),
                from,
                end,
            ),
            None => Err(error_at(from, ErrorKind::MapRes)),
        }
    }
}

/// The outcome of a date token, as that of a date with its year.
pub open spec fn as_full(outcome: Outcome<CalendarDate>) -> Outcome<ParsedDate> {
    match outcome {
        Ok((end, date)) => Ok((end, ParsedDate::Full(date))),
        Err(rejection) => Err(rejection),
    }
}

/// The outcome of a date token, as that of a date without its year.
pub open spec fn as_partial(outcome: Outcome<CalendarDate>) -> Outcome<ParsedDate> {
    match outcome {
        Ok((end, date)) => Ok((end, ParsedDate::Partial(date))),
        Err(rejection) => Err(rejection),
    }
}

/// The date token at `from`: the first that matches of the full date with
/// hyphens, with slashes and with periods, and then of the partial date
/// with the same three. Where none matches, the rejection is that of the
/// last.
pub open spec fn date_token_at(s: Seq<char>, from: int) -> Outcome<ParsedDate> {
    if full_date_at(s, from, '-') is Ok {
        as_full(full_date_at(s, from, '-'))
    } else if full_date_at(s, from, '/') is Ok {
        as_full(full_date_at(s, from, '/'))
    } else if full_date_at(s, from, '.') is Ok {
        as_full(full_date_at(s, from, '.'))
    } else if partial_date_at(s, from, '-') is Ok {
        as_partial(partial_date_at(s, from, '-'))
    } else if partial_date_at(s, from, '/') is Ok {
        as_partial(partial_date_at(s, from, '/'))
    } else {
        as_partial(partial_date_at(s, from, '.'))
    }
}

/// A date at `from`: the date token, and the white space after it, line
/// endings included.
pub open spec fn date_at(s: Seq<char>, from: int) -> Outcome<ParsedDate> {
    match date_token_at(s, from) {
        Ok((end, date)) => Ok((run_end(s, end, CharClass::Multispace), date)),
        Err(rejection) => Err(rejection),
    }
}

/// Whether the character is one of the three separators of dates.
pub open spec fn is_separator(c: char) -> bool {
    c == '-' || c == '/' || c == '.'
}

/// Whether the date is a day of the calendar and is the one that the
/// numbers of the token at `from` spell, with one of the three
/// separators: all three numbers for a full date, and the month and the
/// day, in the year 2021, for a partial one.
pub open spec fn spells(s: Seq<char>, from: int, date: ParsedDate) -> bool {
    date.date().is_valid() && match date {
        ParsedDate::Full(day) => exists|separator: char|
            is_separator(separator) && (#[trigger] full_numbers_at(
                s,
                from,
                separator,
            ) matches Some(numbers) && as_written(day, numbers.0, numbers.1, numbers.2)),
        ParsedDate::Partial(day) => exists|separator: char|
            is_separator(separator) && (#[trigger] partial_numbers_at(
                s,
                from,
                separator,
            ) matches Some(numbers) && (all_in(numbers.0, CharClass::AsciiDigit) && all_in(
                numbers.1,
                CharClass::AsciiDigit,
            ) ==> day.year == 2021 && day.month == decimal_value(numbers.0) && day.day
                == decimal_value(numbers.1))),
    }
}

/// Makes the outcome of a date token from what was made of its numbers.
pub fn date_from(date: Option<CalendarDate>, from: usize, end: usize) -> (outcome: Result<
    (usize, CalendarDate),
    Failure,
>)
    ensures
        agrees(outcome, date_of(date, from as int, end as int)),
{
    match date {
        Some(date) => Ok((end, date)),
        None => Err(Failure::error(from, ErrorKind::MapRes)),
    }
}

/// Reads a date with its year, for one separator, at the position `from`
/// of `chars`.
pub fn parse_full_date(separator: char, chars: &[char], from: usize) -> (outcome: Result<
    (usize, CalendarDate),
    Failure,
>)
    requires
        from <= chars@.len(),
    ensures
        agrees(outcome, full_date_at(chars@, from as int, separator)),
        within(outcome, from as int, chars@.len() as int),
        outcome matches Ok((_, date)) ==> date.is_valid() && (full_numbers_at(
            chars@,
            from as int,
            separator,
        ) matches Some(numbers) && as_written(date, numbers.0, numbers.1, numbers.2)),
{
    let end = scan(chars, from, CharClass::Date(separator));
    if end == from {
        return Err(Failure::error(from, ErrorKind::TakeWhile1));
    }
    let year_end = scan(chars, from, CharClass::DateNumber(separator));
    if !(from < year_end && year_end < end) {
        return Err(Failure::error(from, ErrorKind::MapRes));
    }
    let month_end = scan(chars, year_end + 1, CharClass::DateNumber(separator));
    if !(year_end + 1 < month_end && month_end < end) {
        return Err(Failure::error(from, ErrorKind::MapRes));
    }
    let day_end = scan(chars, month_end + 1, CharClass::DateNumber(separator));
    if !(month_end + 1 < day_end && day_end == end) {
        return Err(Failure::error(from, ErrorKind::MapRes));
    }
    let year = text_of(chars, from, year_end);
    let month = text_of(chars, year_end + 1, month_end);
    let day = text_of(chars, month_end + 1, day_end);
    date_from(read_date(year.as_str(), month.as_str(), day.as_str()), from, end)
}

/// The provisional year is the number 2021.
pub proof fn lemma_provisional_year()
    ensures
        all_in(provisional_year(), CharClass::AsciiDigit),
        decimal_value(provisional_year()) == 2021,
{
    let year = provisional_year();
    let three = seq!['2', '0', '2'];
    let two = seq!['2', '0'];
    let one = seq!['2'];
    assert(one.drop_last() =~= Seq::<char>::empty());
    assert(decimal_value(one.drop_last()) == 0);
    assert(one.last() == '2');
    assert(decimal_value(one) == 2);
    assert(two.drop_last() =~= one);
    assert(two.last() == '0');
    assert(decimal_value(two) == 20);
    assert(three.drop_last() =~= two);
    assert(three.last() == '2');
    assert(decimal_value(three) == 202);
    assert(year.drop_last() =~= three);
    assert(year.last() == '1');
}

/// Reads a date without its year, for one separator, at the position
/// `from` of `chars`.
pub fn parse_partial_date(separator: char, chars: &[char], from: usize) -> (outcome: Result<
    (usize, CalendarDate),
    Failure,
>)
    requires
        from <= chars@.len(),
    ensures
        agrees(outcome, partial_date_at(chars@, from as int, separator)),
        within(outcome, from as int, chars@.len() as int),
        outcome matches Ok((_, date)) ==> date.is_valid() && (partial_numbers_at(
            chars@,
            from as int,
            separator,
        ) matches Some(numbers) && (all_in(numbers.0, CharClass::AsciiDigit) && all_in(
            numbers.1,
            CharClass::AsciiDigit,
        ) ==> date.year == 2021 && date.month == decimal_value(numbers.0) && date.day
            == decimal_value(numbers.1))),
{
    let end = scan(chars, from, CharClass::Date(separator));
    if end == from {
        return Err(Failure::error(from, ErrorKind::TakeWhile1));
    }
    let month_end = scan(chars, from, CharClass::DateNumber(separator));
    if !(from < month_end && month_end < end) {
        return Err(Failure::error(from, ErrorKind::MapRes));
    }
    let day_end = scan(chars, month_end + 1, CharClass::DateNumber(separator));
    if !(month_end + 1 < day_end && day_end == end) {
        return Err(Failure::error(from, ErrorKind::MapRes));
    }
    let year = "2021";
    proof {
        reveal_strlit("2021");
        assert(year@ =~= provisional_year());
        lemma_provisional_year();
    }
    let month = text_of(chars, from, month_end);
    let day = text_of(chars, month_end + 1, day_end);
    date_from(read_date(year, month.as_str(), day.as_str()), from, end)
}

/// Reads the date token at the position `from` of `chars`.
pub fn parse_token(chars: &[char], from: usize) -> (outcome: Result<(usize, ParsedDate), Failure>)
    requires
        from <= chars@.len(),
    ensures
        agrees(outcome, date_token_at(chars@, from as int)),
        within(outcome, from as int, chars@.len() as int),
        outcome matches Ok((_, date)) ==> spells(chars@, from as int, date),
{
    if let Ok((end, date)) = parse_full_date('-', chars, from) {
        assert(is_separator('-'));
        return Ok((end, ParsedDate::Full(date)));
    }
    if let Ok((end, date)) = parse_full_date('/', chars, from) {
        assert(is_separator('/'));
        return Ok((end, ParsedDate::Full(date)));
    }
    if let Ok((end, date)) = parse_full_date('.', chars, from) {
        assert(is_separator('.'));
        return Ok((end, ParsedDate::Full(date)));
    }
    if let Ok((end, date)) = parse_partial_date('-', chars, from) {
        assert(is_separator('-'));
        return Ok((end, ParsedDate::Partial(date)));
    }
    if let Ok((end, date)) = parse_partial_date('/', chars, from) {
        assert(is_separator('/'));
        return Ok((end, ParsedDate::Partial(date)));
    }
    match parse_partial_date('.', chars, from) {
        Ok((end, date)) => {
            assert(is_separator('.'));
            Ok((end, ParsedDate::Partial(date)))
        },
        Err(failure) => Err(failure),
    }
}

/// Reads a date that starts at the position `from` of `chars`.
pub fn parse_at(chars: &[char], from: usize) -> (outcome: Result<(usize, ParsedDate), Failure>)
    requires
        from <= chars@.len(),
    ensures
        agrees(outcome, date_at(chars@, from as int)),
        within(outcome, from as int, chars@.len() as int),
        outcome matches Ok((_, date)) ==> spells(chars@, from as int, date),
{
    match parse_token(chars, from) {
        Ok((end, date)) => Ok((scan(chars, end, CharClass::Multispace), date)),
        Err(failure) => Err(failure),
    }
}

/// Reads a date from the start of `input`, and gives back what follows it
/// and the white space behind it.
pub fn parse(input: &str) -> (result: Result<(&str, ParsedDate), ParseError>)
    ensures
        reports(input@, result, date_at(input@, 0)),
        result matches Ok((_, date)) ==> spells(input@, 0, date),
{
    let chars = chars_of(input);
    conclude(input, parse_at(chars.as_slice(), 0))
}

/// The date token of three numbers with the separator between them.
pub open spec fn full_token(
    year: Seq<char>,
    month: Seq<char>,
    day: Seq<char>,
    separator: char,
) -> Seq<char> {
    year + seq![separator] + month + seq![separator] + day
}

/// Whether the text can be a number of a date token with the given
/// separator: numeric characters other than the separator, and at least
/// one of them.
pub open spec fn is_date_number(text: Seq<char>, separator: char) -> bool {
    text.len() > 0 && all_in(text, CharClass::DateNumber(separator))
}

/// The numbers of a token of three numbers with a separator between them
/// are those three, and the token is read, with that separator, as the
/// date that they are.
pub proof fn lemma_full_date_of_token(
    year: Seq<char>,
    month: Seq<char>,
    day: Seq<char>,
    separator: char,
)
    requires
        is_date_number(year, separator),
        is_date_number(month, separator),
        is_date_number(day, separator),
    ensures
        full_numbers_at(full_token(year, month, day, separator), 0, separator) == Some(
            (year, month, day),
        ),
        full_date_at(full_token(year, month, day, separator), 0, separator) == date_of(
            calendar_date(year, month, day),
            0,
            (year.len() + month.len() + day.len() + 2) as int,
        ),
{
    let s = full_token(year, month, day, separator);
    let year_end = year.len() as int;
    let month_end = year_end + 1 + month.len();
    let end = month_end + 1 + day.len();
    let token = CharClass::Date(separator);
    let number = CharClass::DateNumber(separator);
    assert(s.len() == end);
    assert forall|i: int| 0 <= i < end implies token.contains(#[trigger] s[i]) by {
        if i < year_end {
            assert(s[i] == year[i] && number.contains(year[i]));
        } else if year_end < i < month_end {
            assert(s[i] == month[i - year_end - 1] && number.contains(month[i - year_end - 1]));
        } else if month_end < i {
            assert(s[i] == day[i - month_end - 1] && number.contains(day[i - month_end - 1]));
        }
    }
    assert forall|i: int| 0 <= i < year_end implies number.contains(#[trigger] s[i]) by {
        assert(s[i] == year[i] && number.contains(year[i]));
    }
    assert forall|i: int| year_end + 1 <= i < month_end implies number.contains(
        #[trigger] s[i],
    ) by {
        assert(s[i] == month[i - year_end - 1] && number.contains(month[i - year_end - 1]));
    }
    assert forall|i: int| month_end + 1 <= i < end implies number.contains(#[trigger] s[i]) by {
        assert(s[i] == day[i - month_end - 1] && number.contains(day[i - month_end - 1]));
    }
    assert(s[year_end] == separator);
    assert(s[month_end] == separator);
    lemma_run_end_is(s, 0, end, token);
    lemma_run_end_is(s, 0, year_end, number);
    lemma_run_end_is(s, year_end + 1, month_end, number);
    lemma_run_end_is(s, month_end + 1, end, number);
    assert(s.subrange(0, year_end) =~= year);
    assert(s.subrange(year_end + 1, month_end) =~= month);
    assert(s.subrange(month_end + 1, end) =~= day);
}

/// The same three numbers are read as the same date, or refused alike,
/// whichever separator stands between them.
pub proof fn lemma_full_date_whatever_separator(
    year: Seq<char>,
    month: Seq<char>,
    day: Seq<char>,
    one: char,
    other: char,
)
    requires
        is_date_number(year, one) && is_date_number(month, one) && is_date_number(day, one),
        is_date_number(year, other) && is_date_number(month, other) && is_date_number(day, other),
    ensures
        full_date_at(full_token(year, month, day, one), 0, one) == full_date_at(
            full_token(year, month, day, other),
            0,
            other,
        ),
{
    lemma_full_date_of_token(year, month, day, one);
    lemma_full_date_of_token(year, month, day, other);
}

/// A token of three numbers with one separator between them is no full
/// date for another separator, if the one that is written is not numeric.
proof fn lemma_other_separator(
    year: Seq<char>,
    month: Seq<char>,
    day: Seq<char>,
    written: char,
    tried: char,
)
    requires
        written != tried,
        !numeric_char(written),
        is_date_number(year, tried),
    ensures
        full_date_at(full_token(year, month, day, written), 0, tried) is Err,
{
    let s = full_token(year, month, day, written);
    let year_end = year.len() as int;
    assert forall|i: int| 0 <= i < year_end implies CharClass::DateNumber(tried).contains(
        #[trigger] s[i],
    ) && CharClass::Date(tried).contains(s[i]) by {
        assert(s[i] == year[i] && CharClass::DateNumber(tried).contains(year[i]));
    }
    assert(s[year_end] == written);
    lemma_run_end_is(s, 0, year_end, CharClass::Date(tried));
    lemma_run_end_is(s, 0, year_end, CharClass::DateNumber(tried));
}

/// A date with its year is read as the same full date whichever of the
/// three separators it is written with: where the three numbers are a
/// date, the token is read as that date, to its end. The numbers are
/// numeric characters, which the separators are not.
pub proof fn lemma_date_whatever_separator(
    year: Seq<char>,
    month: Seq<char>,
    day: Seq<char>,
    separator: char,
    date: CalendarDate,
)
    requires
        is_separator(separator),
        !numeric_char('-') && !numeric_char('/') && !numeric_char('.'),
        year.len() > 0 && month.len() > 0 && day.len() > 0,
        forall|i: int| 0 <= i < year.len() ==> numeric_char(#[trigger] year[i]),
        forall|i: int| 0 <= i < month.len() ==> numeric_char(#[trigger] month[i]),
        forall|i: int| 0 <= i < day.len() ==> numeric_char(#[trigger] day[i]),
        calendar_date(year, month, day) == Some(date),
    ensures
        date_at(full_token(year, month, day, separator), 0) == Ok::<_, Rejection>(
            ((year.len() + month.len() + day.len() + 2) as int, ParsedDate::Full(date)),
        ),
{
    let s = full_token(year, month, day, separator);
    let end = (year.len() + month.len() + day.len() + 2) as int;
    assert(is_date_number(year, '-') && is_date_number(year, '/') && is_date_number(year, '.'));
    assert(is_date_number(month, '-') && is_date_number(month, '/') && is_date_number(
        month,
        '.',
    ));
    assert(is_date_number(day, '-') && is_date_number(day, '/') && is_date_number(day, '.'));
    lemma_full_date_of_token(year, month, day, separator);
    if separator != '-' {
        lemma_other_separator(year, month, day, separator, '-');
        if separator != '/' {
            lemma_other_separator(year, month, day, separator, '/');
        }
    }
    assert(date_token_at(s, 0) == Ok::<_, Rejection>((end, ParsedDate::Full(date))));
    assert(s.len() == end);
    assert(run_end(s, end, CharClass::Multispace) == end);
}

/// The numbers of a date token end within the token.
proof fn lemma_number_within_token(s: Seq<char>, from: int, at: int, separator: char)
    requires
        0 <= from <= at <= run_end(s, from, CharClass::Date(separator)) <= s.len(),
    ensures
        at <= run_end(s, at, CharClass::DateNumber(separator)) <= run_end(
            s,
            from,
            CharClass::Date(separator),
        ),
{
    let end = run_end(s, from, CharClass::Date(separator));
    let number_end = run_end(s, at, CharClass::DateNumber(separator));
    lemma_run_end(s, from, CharClass::Date(separator));
    lemma_run_end(s, at, CharClass::DateNumber(separator));
    if number_end > end {
        assert(CharClass::DateNumber(separator).contains(s[end]));
    }
}

/// The date token for one separator is read alike from the text cut off
/// anywhere behind that token.
proof fn lemma_date_token_in_prefix(s: Seq<char>, from: int, separator: char, m: int)
    requires
        0 <= from <= m <= s.len(),
        run_end(s, from, CharClass::Date(separator)) <= m,
    ensures
        full_date_at(s.take(m), from, separator) == full_date_at(s, from, separator),
        partial_date_at(s.take(m), from, separator) == partial_date_at(s, from, separator),
{
    let t = s.take(m);
    let number = CharClass::DateNumber(separator);
    let end = run_end(s, from, CharClass::Date(separator));
    lemma_run_end(s, from, CharClass::Date(separator));
    lemma_run_end_in_prefix(s, from, m, CharClass::Date(separator));
    let first = run_end(s, from, number);
    lemma_number_within_token(s, from, from, separator);
    lemma_run_end_in_prefix(s, from, m, number);
    if first < end {
        let second = run_end(s, first + 1, number);
        lemma_number_within_token(s, from, first + 1, separator);
        lemma_run_end_in_prefix(s, first + 1, m, number);
        assert(t.subrange(from, first) =~= s.subrange(from, first));
        assert(t.subrange(first + 1, second) =~= s.subrange(first + 1, second));
        if second < end {
            let third = run_end(s, second + 1, number);
            lemma_number_within_token(s, from, second + 1, separator);
            lemma_run_end_in_prefix(s, second + 1, m, number);
            assert(t.subrange(second + 1, third) =~= s.subrange(second + 1, third));
        }
    }
}

/// Where a date is written with one separator, the token for another
/// separator ends within the token for that one, if that one is not
/// numeric.
proof fn lemma_other_token(s: Seq<char>, from: int, written: char, tried: char)
    requires
        0 <= from <= s.len(),
        written != tried,
        !numeric_char(written),
        full_numbers_at(s, from, written) is Some || partial_numbers_at(s, from, written) is Some,
    ensures
        run_end(s, from, CharClass::Date(tried)) <= run_end(s, from, CharClass::Date(written)),
{
    let first = run_end(s, from, CharClass::DateNumber(written));
    lemma_run_end(s, from, CharClass::DateNumber(written));
    lemma_run_end(s, from, CharClass::Date(written));
    assert(CharClass::Date(written).contains(s[first]));
    assert(s[first] == written);
    assert forall|i: int| from <= i < first implies CharClass::Date(tried).contains(
        #[trigger] s[i],
    ) by {
        assert(CharClass::DateNumber(written).contains(s[i]));
    }
    lemma_run_end_is(s, from, first, CharClass::Date(tried));
}

/// A date that is read ends behind the position it is read from.
pub proof fn lemma_date_at(s: Seq<char>, from: int)
    requires
        0 <= from <= s.len(),
    ensures
        date_at(s, from) matches Ok((end, _)) ==> from < end <= s.len(),
{
    lemma_run_end(s, from, CharClass::Date('-'));
    lemma_run_end(s, from, CharClass::Date('/'));
    lemma_run_end(s, from, CharClass::Date('.'));
    if let Ok((end, _)) = date_token_at(s, from) {
        lemma_run_end(s, end, CharClass::Multispace);
    }
}

/// What is read does not depend on what follows: a date that is read from
/// a text is read alike from the text cut off anywhere behind it. The
/// separators are not numeric characters.
pub proof fn lemma_date_in_prefix(s: Seq<char>, from: int, m: int)
    requires
        0 <= from <= m <= s.len(),
        !numeric_char('-') && !numeric_char('/') && !numeric_char('.'),
    ensures
        date_at(s, from) matches Ok((end, _)) && end <= m ==> date_at(s.take(m), from) == date_at(
            s,
            from,
        ),
{
    lemma_run_end(s, from, CharClass::Date('-'));
    lemma_run_end(s, from, CharClass::Date('/'));
    lemma_run_end(s, from, CharClass::Date('.'));
    if let Ok((token_end, _)) = date_token_at(s, from) {
        lemma_run_end(s, token_end, CharClass::Multispace);
        if run_end(s, token_end, CharClass::Multispace) <= m {
            let written = if full_date_at(s, from, '-') is Ok {
                '-'
            } else if full_date_at(s, from, '/') is Ok {
                '/'
            } else if full_date_at(s, from, '.') is Ok {
                '.'
            } else if partial_date_at(s, from, '-') is Ok {
                '-'
            } else if partial_date_at(s, from, '/') is Ok {
                '/'
            } else {
                '.'
            };
            assert(token_end == run_end(s, from, CharClass::Date(written)));
            if written != '-' {
                lemma_other_token(s, from, written, '-');
            }
            if written != '/' {
                lemma_other_token(s, from, written, '/');
            }
            if written != '.' {
                lemma_other_token(s, from, written, '.');
            }
            lemma_date_token_in_prefix(s, from, '-', m);
            lemma_date_token_in_prefix(s, from, '/', m);
            lemma_date_token_in_prefix(s, from, '.', m);
            lemma_run_end_in_prefix(s, token_end, m, CharClass::Multispace);
        }
    }
}

} // verus!

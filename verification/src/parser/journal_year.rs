//! The year directive: `y2021` or `Y2021`.

use vstd::prelude::*;

use super::error::{
    agrees, conclude, error_at, failure_at, reports, within, ErrorKind, Failure, Outcome,
    ParseError,
};
use crate::text::{
    chars_of, decimal_value, digits_of, lemma_digits_of, lemma_run_end,
    lemma_run_end_in_prefix, lemma_run_end_is, read_number, run_end, scan, CharClass,
};

verus! {

/// Whether the letter that opens a year directive stands at `from`.
pub open spec fn year_opens(s: Seq<char>, from: int) -> bool {
    0 <= from < s.len() && (s[from] == 'y' || s[from] == 'Y')
}

/// A year directive at `from`: the letter `y`, in either case, then the
/// digits of the year. Without the letter the rule does not match. With
/// it, the directive is malformed, and no other rule is to be tried, where
/// no digit follows or the digits spell a number of more than 32 bits.
pub open spec fn year_at(s: Seq<char>, from: int) -> Outcome<u32> {
    if !year_opens(s, from) {
        Err(error_at(from, ErrorKind::Tag))
    } else {
        let end = run_end(s, from + 1, CharClass::AsciiDigit);
        if end == from + 1 {
            Err(failure_at(from + 1, ErrorKind::Digit))
        } else if decimal_value(s.subrange(from + 1, end)) > u32::MAX {
            Err(failure_at(from + 1, ErrorKind::MapRes))
        } else {
            Ok((end, decimal_value(s.subrange(from + 1, end)) as u32))
        }
    }
}

/// Reads a year directive that starts at the position `from` of `chars`.
pub fn parse_at(chars: &[char], from: usize) -> (outcome: Result<(usize, u32), Failure>)
    requires
        from <= chars@.len(),
    ensures
        agrees(outcome, year_at(chars@, from as int)),
        within(outcome, from as int, chars@.len() as int),
{
    if !(from < chars.len() && (chars[from] == 'y' || chars[from] == 'Y')) {
        return Err(Failure::error(from, ErrorKind::Tag));
    }
    let start: usize = from + 1;
    let end = scan(chars, start, CharClass::AsciiDigit);
    if end == start {
        return Err(Failure::failure(start, ErrorKind::Digit));
    }
    proof {
        lemma_run_end(chars@, start as int, CharClass::AsciiDigit);
    }
    match read_number(chars, start, end) {
        Some(year) => Ok((end, year)),
        None => Err(Failure::failure(start, ErrorKind::MapRes)),
    }
}

/// Reads a year directive from the start of `input`, and gives back what
/// follows it.
pub fn parse(input: &str) -> (result: Result<(&str, u32), ParseError>)
    ensures
        reports(input@, result, year_at(input@, 0)),
{
    let chars = chars_of(input);
    conclude(input, parse_at(chars.as_slice(), 0))
}

/// The directive that sets the year: the letter `y` and the digits of the
/// year.
pub open spec fn year_text(year: u32) -> Seq<char> {
    seq!['y'] + digits_of(year as nat)
}

/// Reading is idempotent on year directives: a year that is written as a
/// directive is read back as it is, to the end of the text.
pub proof fn lemma_year_read_again(year: u32)
    ensures
        year_at(year_text(year), 0) == Ok::<_, super::error::Rejection>(
            (year_text(year).len() as int, year),
        ),
{
    let digits = digits_of(year as nat);
    let s = year_text(year);
    lemma_digits_of(year as nat);
    assert(s[0] == 'y');
    assert forall|i: int| 1 <= i < s.len() implies CharClass::AsciiDigit.contains(
        #[trigger] s[i],
    ) by {
        assert(s[i] == digits[i - 1]);
    }
    lemma_run_end_is(s, 1, s.len() as int, CharClass::AsciiDigit);
    assert(s.subrange(1, s.len() as int) =~= digits);
}

/// What is read does not depend on what follows: a year directive that is
/// read from a text is read alike from the text cut off anywhere behind
/// it, and where none stands, none does in the text cut off anywhere.
pub proof fn lemma_year_in_prefix(s: Seq<char>, from: int, m: int)
    requires
        0 <= from <= m <= s.len(),
    ensures
        year_at(s, from) matches Ok((end, _)) && end <= m ==> year_at(s.take(m), from) == year_at(
            s,
            from,
        ),
        !year_opens(s, from) ==> year_at(s.take(m), from) == year_at(s, from),
{
    if from < m {
        let end = run_end(s, from + 1, CharClass::AsciiDigit);
        lemma_run_end(s, from + 1, CharClass::AsciiDigit);
        lemma_run_end_in_prefix(s, from + 1, m, CharClass::AsciiDigit);
        assert(s.take(m)[from] == s[from]);
        if end <= m {
            assert(s.take(m).subrange(from + 1, end) =~= s.subrange(from + 1, end));
        }
    } else if year_opens(s, from) {
        lemma_run_end(s, from + 1, CharClass::AsciiDigit);
    }
}

} // verus!

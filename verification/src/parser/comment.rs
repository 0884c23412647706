//! Comments: `//` and whatever follows it on the line.

use vstd::prelude::*;

use super::error::{agrees, conclude, error_at, reports, within, ErrorKind, Failure, Outcome, ParseError};
use crate::text::{chars_of, lemma_line_ending_in_prefix, line_ending, line_ending_end};

verus! {

/// Whether the two slashes that open a comment stand at `from`.
pub open spec fn comment_opens(s: Seq<char>, from: int) -> bool {
    0 <= from && from + 1 < s.len() && s[from] == '/' && s[from + 1] == '/'
}

/// The position after the first line ending that starts at or after
/// `from`. Without one, the rejection at the end of the text.
pub open spec fn line_end_from(s: Seq<char>, from: int) -> Outcome<()>
    decreases s.len() - from,
{
    match line_ending_end(s, from) {
        Some(end) => Ok((end, ())),
        None => if 0 <= from < s.len() {
            line_end_from(s, from + 1)
        } else {
            Err(error_at(from, ErrorKind::Eof))
        },
    }
}

/// A comment at `from`: two slashes, then everything up to and including
/// the first line ending. It is rejected where the slashes are missing,
/// and at the end of the text where the line does not end.
pub open spec fn comment_at(s: Seq<char>, from: int) -> Outcome<()> {
    if comment_opens(s, from) {
        line_end_from(s, from + 2)
    } else {
        Err(error_at(from, ErrorKind::Tag))
    }
}

/// A comment ends after a line ending, with no line ending starting
/// between the slashes and that one; or it is rejected at the end of a
/// text that holds no line ending after the slashes.
pub proof fn lemma_line_end_from(s: Seq<char>, from: int)
    requires
        0 <= from <= s.len(),
    ensures
        match line_end_from(s, from) {
            Ok((end, _)) => exists|start: int|
                from <= start < end && line_ending_end(s, start) == Some(end) && forall|i: int|
                    from <= i < start ==> line_ending_end(s, i) is None,
            Err(rejection) => rejection == error_at(s.len() as int, ErrorKind::Eof) && forall|
                i: int,
            |
                from <= i ==> line_ending_end(s, i) is None,
        },
    decreases s.len() - from,
{
    if line_ending_end(s, from) is None && from < s.len() {
        lemma_line_end_from(s, from + 1);
    }
}

/// Reads a comment that starts at the position `from` of `chars`.
pub fn parse_at(chars: &[char], from: usize) -> (outcome: Result<(usize, ()), Failure>)
    requires
        from <= chars@.len(),
    ensures
        agrees(outcome, comment_at(chars@, from as int)),
        within(outcome, from as int, chars@.len() as int),
{
    if !(chars.len() - from >= 2 && chars[from] == '/' && chars[from + 1] == '/') {
        return Err(Failure::error(from, ErrorKind::Tag));
    }
    let mut at: usize = from + 2;
    loop
        invariant
            from + 2 <= at <= chars@.len(),
            comment_opens(chars@, from as int),
            line_end_from(chars@, from + 2) == line_end_from(chars@, at as int),
        decreases chars@.len() - at,
    {
        match line_ending(chars, at) {
            Some(end) => {
                return Ok((end, ()));
            },
            None => {
                if at >= chars.len() {
                    return Err(Failure::error(at, ErrorKind::Eof));
                }
                at = at + 1;
            },
        }
    }
}

/// Reads a comment from the start of `input`, and gives back what follows
/// it.
pub fn parse(input: &str) -> (result: Result<(&str, ()), ParseError>)
    ensures
        reports(input@, result, comment_at(input@, 0)),
{
    let chars = chars_of(input);
    conclude(input, parse_at(chars.as_slice(), 0))
}

/// What is read does not depend on what follows: a comment that is read
/// from a text is read alike from the text cut off anywhere behind it, and
/// where none can be read, none can from the text cut off anywhere.
pub proof fn lemma_comment_in_prefix(s: Seq<char>, from: int, m: int)
    requires
        0 <= from <= m <= s.len(),
    ensures
        comment_at(s, from) matches Ok((end, _)) && end <= m ==> comment_at(s.take(m), from)
            == comment_at(s, from),
        comment_at(s, from) is Err ==> comment_at(s.take(m), from) is Err,
{
    if comment_opens(s, from) {
        lemma_line_end_from(s, from + 2);
        if from + 2 <= m {
            lemma_line_end_in_prefix(s, from + 2, m);
            assert(s.take(m)[from] == s[from] && s.take(m)[from + 1] == s[from + 1]);
        }
    }
}

proof fn lemma_line_end_in_prefix(s: Seq<char>, from: int, m: int)
    requires
        0 <= from <= m <= s.len(),
    ensures
        line_end_from(s, from) matches Ok((end, _)) && end <= m ==> line_end_from(
            s.take(m),
            from,
        ) == line_end_from(s, from),
        line_end_from(s, from) is Err ==> line_end_from(s.take(m), from) is Err,
    decreases m - from,
{
    lemma_line_ending_in_prefix(s, from, m);
    lemma_line_end_from(s, from);
    if line_ending_end(s, from) is None && from < m {
        lemma_line_end_in_prefix(s, from + 1, m);
    }
}

} // verus!

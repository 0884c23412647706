//! The payee and the description of a transaction: `payee | description`.

use vstd::prelude::*;

use crate::parser::ast::{PayeeSectionType, PayeeSectionView};
use crate::parser::error::{agrees, conclude, reports, within, Failure, Outcome, ParseError};
use crate::text::{
    chars_of, lemma_run_end, lemma_run_end_in_prefix, run_end, scan, skip, skip_char, text_of,
    CharClass,
};

verus! {

/// The first position from `from` on, and not after `to`, that holds no
/// space.
pub open spec fn trim_start(s: Seq<char>, from: int, to: int) -> int
    decreases to - from,
{
    if 0 <= from < to <= s.len() && s[from] == ' ' {
        trim_start(s, from + 1, to)
    } else {
        from
    }
}

/// The last position up to `to`, and not before `from`, that no space
/// stands in front of.
pub open spec fn trim_end(s: Seq<char>, from: int, to: int) -> int
    decreases to - from,
{
    if 0 <= from < to <= s.len() && s[to - 1] == ' ' {
        trim_end(s, from, to - 1)
    } else {
        to
    }
}

/// The text between two positions without the spaces at its two ends.
pub open spec fn phrase(s: Seq<char>, from: int, to: int) -> Seq<char> {
    let start = trim_start(s, from, to);
    s.subrange(start, trim_end(s, start, to))
}

/// Trimming takes spaces away, and only spaces, from both ends of the
/// text, and leaves none at either end.
pub proof fn lemma_phrase(s: Seq<char>, from: int, to: int)
    requires
        0 <= from <= to <= s.len(),
    ensures
        from <= trim_start(s, from, to) <= trim_end(s, trim_start(s, from, to), to) <= to,
        forall|i: int| from <= i < trim_start(s, from, to) ==> s[i] == ' ',
        forall|i: int| trim_end(s, trim_start(s, from, to), to) <= i < to ==> s[i] == ' ',
        phrase(s, from, to).len() > 0 ==> phrase(s, from, to).first() != ' ' && phrase(
            s,
            from,
            to,
        ).last() != ' ',
{
    lemma_trim_start(s, from, to);
    let start = trim_start(s, from, to);
    lemma_trim_end(s, start, to);
}

proof fn lemma_trim_start(s: Seq<char>, from: int, to: int)
    requires
        0 <= from <= to <= s.len(),
    ensures
        from <= trim_start(s, from, to) <= to,
        forall|i: int| from <= i < trim_start(s, from, to) ==> s[i] == ' ',
        trim_start(s, from, to) < to ==> s[trim_start(s, from, to)] != ' ',
    decreases to - from,
{
    if from < to && s[from] == ' ' {
        lemma_trim_start(s, from + 1, to);
    }
}

proof fn lemma_trim_end(s: Seq<char>, from: int, to: int)
    requires
        0 <= from <= to <= s.len(),
    ensures
        from <= trim_end(s, from, to) <= to,
        forall|i: int| trim_end(s, from, to) <= i < to ==> s[i] == ' ',
        from < trim_end(s, from, to) ==> s[trim_end(s, from, to) - 1] != ' ',
    decreases to - from,
{
    if from < to && s[to - 1] == ' ' {
        lemma_trim_end(s, from, to - 1);
    }
}

/// The section at `from`, after spaces and tabs: a payee, which is a run
/// of alphanumeric characters and spaces; a vertical bar; a description,
/// which is such a run too. Each of the three may be missing, and what is
/// there is consumed. Without a payee the section is empty, whatever
/// follows; a description counts only behind a payee. Payee and
/// description come without the spaces at their ends.
pub open spec fn section_at(s: Seq<char>, from: int) -> Outcome<PayeeSectionView> {
    let start = run_end(s, from, CharClass::Space);
    let payee_end = run_end(s, start, CharClass::Phrase);
    let bar_end = skip_char(s, payee_end, '|');
    let end = run_end(s, bar_end, CharClass::Phrase);
    if payee_end == start {
        Ok((end, PayeeSectionView::Empty))
    } else if end == bar_end {
        Ok((end, PayeeSectionView::PayeeOnly(phrase(s, start, payee_end))))
    } else {
        Ok(
            (
                end,
                PayeeSectionView::PayeeAndDescription(
                    phrase(s, start, payee_end),
                    phrase(s, bar_end, end),
                ),
            ),
        )
    }
}

/// The text between two positions without the spaces at its two ends, as
/// an owned string.
pub fn phrase_of(chars: &[char], from: usize, to: usize) -> (text: String)
    requires
        from <= to <= chars@.len(),
    ensures
        text@ == phrase(chars@, from as int, to as int),
{
    let mut start: usize = from;
    while start < to && chars[start] == ' '
        invariant
            from <= start <= to <= chars@.len(),
            trim_start(chars@, from as int, to as int) == trim_start(
                chars@,
                start as int,
                to as int,
            ),
        decreases to - start,
    {
        start = start + 1;
    }
    let mut end: usize = to;
    while start < end && chars[end - 1] == ' '
        invariant
            start <= end <= to <= chars@.len(),
            trim_end(chars@, start as int, to as int) == trim_end(
                chars@,
                start as int,
                end as int,
            ),
        decreases end - start,
    {
        end = end - 1;
    }
    text_of(chars, start, end)
}

/// Reads the section that starts at the position `from` of `chars`.
pub fn parse_at(chars: &[char], from: usize) -> (outcome: Result<
    (usize, PayeeSectionType),
    Failure,
>)
    requires
        from <= chars@.len(),
    ensures
        agrees(outcome, section_at(chars@, from as int)),
        within(outcome, from as int, chars@.len() as int),
        outcome is Ok,
{
    let start = scan(chars, from, CharClass::Space);
    let payee_end = scan(chars, start, CharClass::Phrase);
    let bar_end = skip(chars, payee_end, '|');
    let end = scan(chars, bar_end, CharClass::Phrase);
    if payee_end == start {
        Ok((end, PayeeSectionType::Empty))
    } else if end == bar_end {
        Ok((end, PayeeSectionType::PayeeOnly(phrase_of(chars, start, payee_end))))
    } else {
        let payee = phrase_of(chars, start, payee_end);
        let description = phrase_of(chars, bar_end, end);
        Ok((end, PayeeSectionType::PayeeAndDescription((payee, description))))
    }
}

/// Reads the section from the start of `input`, and gives back what
/// follows it.
pub fn parse(input: &str) -> (result: Result<(&str, PayeeSectionType), ParseError>)
    ensures
        reports(input@, result, section_at(input@, 0)),
{
    let chars = chars_of(input);
    conclude(input, parse_at(chars.as_slice(), 0))
}

proof fn lemma_phrase_in_prefix(s: Seq<char>, from: int, to: int, m: int)
    requires
        0 <= from <= to <= m <= s.len(),
    ensures
        phrase(s.take(m), from, to) == phrase(s, from, to),
{
    lemma_trim_start_in_prefix(s, from, to, m);
    lemma_trim_start(s, from, to);
    let start = trim_start(s, from, to);
    lemma_trim_end_in_prefix(s, start, to, m);
    lemma_trim_end(s, start, to);
    assert(s.take(m).subrange(start, trim_end(s, start, to)) =~= s.subrange(
        start,
        trim_end(s, start, to),
    ));
}

proof fn lemma_trim_start_in_prefix(s: Seq<char>, from: int, to: int, m: int)
    requires
        0 <= from <= to <= m <= s.len(),
    ensures
        trim_start(s.take(m), from, to) == trim_start(s, from, to),
    decreases to - from,
{
    if from < to {
        assert(s.take(m)[from] == s[from]);
        lemma_trim_start_in_prefix(s, from + 1, to, m);
    }
}

proof fn lemma_trim_end_in_prefix(s: Seq<char>, from: int, to: int, m: int)
    requires
        0 <= from <= to <= m <= s.len(),
    ensures
        trim_end(s.take(m), from, to) == trim_end(s, from, to),
    decreases to - from,
{
    if from < to {
        assert(s.take(m)[to - 1] == s[to - 1]);
        lemma_trim_end_in_prefix(s, from, to - 1, m);
    }
}

/// What is read does not depend on what follows: the section that is read
/// from a text is read alike from the text cut off anywhere behind it.
pub proof fn lemma_section_in_prefix(s: Seq<char>, from: int, m: int)
    requires
        0 <= from <= m <= s.len(),
    ensures
        section_at(s, from) matches Ok((end, _)) && end <= m ==> section_at(s.take(m), from)
            == section_at(s, from),
{
    let t = s.take(m);
    let start = run_end(s, from, CharClass::Space);
    let payee_end = run_end(s, start, CharClass::Phrase);
    let bar_end = skip_char(s, payee_end, '|');
    let end = run_end(s, bar_end, CharClass::Phrase);
    lemma_run_end(s, from, CharClass::Space);
    lemma_run_end(s, start, CharClass::Phrase);
    lemma_run_end(s, bar_end, CharClass::Phrase);
    if end <= m {
        lemma_run_end_in_prefix(s, from, m, CharClass::Space);
        lemma_run_end_in_prefix(s, start, m, CharClass::Phrase);
        lemma_run_end_in_prefix(s, bar_end, m, CharClass::Phrase);
        assert(skip_char(t, payee_end, '|') == bar_end);
        lemma_phrase_in_prefix(s, start, payee_end, m);
        lemma_phrase_in_prefix(s, bar_end, end, m);
    }
}

/// The section that is read ends at or behind the position it is read
/// from.
pub proof fn lemma_section_at(s: Seq<char>, from: int)
    requires
        0 <= from <= s.len(),
    ensures
        section_at(s, from) matches Ok((end, _)) && from <= end <= s.len(),
{
    let start = run_end(s, from, CharClass::Space);
    let payee_end = run_end(s, start, CharClass::Phrase);
    let bar_end = skip_char(s, payee_end, '|');
    lemma_run_end(s, from, CharClass::Space);
    lemma_run_end(s, start, CharClass::Phrase);
    lemma_run_end(s, bar_end, CharClass::Phrase);
}

} // verus!

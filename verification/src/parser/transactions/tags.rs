//! The tags of a transaction: `;first,second`.

use vstd::prelude::*;

use crate::parser::ast::{texts, Tag};
use crate::parser::error::{
    conclude, error_at, within, ErrorKind, Failure, Outcome, ParseError, ParseErrorView,
};
use crate::text::{
    all_in, alphanumeric_char, chars_of, lemma_run_end, lemma_run_end_in_prefix,
    lemma_run_end_is, run_end, scan, text_of, CharClass,
};

verus! {

/// The tags that follow from `from` on, each after a comma, and the
/// position after the last of them. A comma that no tag follows is not
/// consumed.
pub open spec fn more_tags_at(s: Seq<char>, from: int) -> (int, Seq<Seq<char>>)
    decreases s.len() - from,
{
    let end = run_end(s, from + 1, CharClass::Tag);
    if 0 <= from < s.len() && s[from] == ',' && from + 1 < end <= s.len() {
        let (stop, rest) = more_tags_at(s, end);
        (stop, seq![s.subrange(from + 1, end)] + rest)
    } else {
        (from, Seq::empty())
    }
}

/// A list of tags at `from`: a semicolon, a tag, and more tags after
/// commas. A tag is a run of alphanumeric characters and hyphens. The list
/// is rejected where the semicolon is missing and where no tag follows it.
pub open spec fn tags_at(s: Seq<char>, from: int) -> Outcome<Seq<Seq<char>>> {
    if !(0 <= from < s.len() && s[from] == ';') {
        Err(error_at(from, ErrorKind::Tag))
    } else {
        let end = run_end(s, from + 1, CharClass::Tag);
        if end == from + 1 {
            Err(error_at(from + 1, ErrorKind::TakeWhile1))
        } else {
            let (stop, rest) = more_tags_at(s, end);
            Ok((stop, seq![s.subrange(from + 1, end)] + rest))
        }
    }
}

/// Whether the result of reading tags from a position is what the rule's
/// outcome says.
pub open spec fn agrees_tags(
    actual: Result<(usize, Vec<Tag>), Failure>,
    expected: Outcome<Seq<Seq<char>>>,
) -> bool {
    match expected {
        Ok((end, tags)) => actual matches Ok((e, v)) && e == end && texts(v@) == tags,
        Err(rejection) => actual matches Err(failure) && failure@ == rejection,
    }
}

/// Whether the result of reading tags from the whole of `input` is what
/// the rule's outcome says.
pub open spec fn reports_tags(
    input: Seq<char>,
    actual: Result<(&str, Vec<Tag>), ParseError>,
    expected: Outcome<Seq<Seq<char>>>,
) -> bool {
    match expected {
        Ok((end, tags)) => actual matches Ok((rest, v)) && rest@ == input.skip(end) && texts(v@)
            == tags,
        Err(rejection) => actual matches Err(error) && error@ == (ParseErrorView {
            severity: rejection.severity,
            input: input.skip(rejection.at),
            code: rejection.code,
        }),
    }
}

/// Reads a list of tags that starts at the position `from` of `chars`.
pub fn parse_at(chars: &[char], from: usize) -> (outcome: Result<(usize, Vec<Tag>), Failure>)
    requires
        from <= chars@.len(),
    ensures
        agrees_tags(outcome, tags_at(chars@, from as int)),
        within(outcome, from as int, chars@.len() as int),
{
    if !(from < chars.len() && chars[from] == ';') {
        return Err(Failure::error(from, ErrorKind::Tag));
    }
    let end = scan(chars, from + 1, CharClass::Tag);
    if end == from + 1 {
        return Err(Failure::error(from + 1, ErrorKind::TakeWhile1));
    }
    let mut tags: Vec<Tag> = Vec::new();
    tags.push(text_of(chars, from + 1, end));
    assert(texts(tags@) =~= seq![chars@.subrange(from + 1, end as int)]);
    let mut at: usize = end;
    loop
        invariant
            from < at <= chars@.len(),
            seq![chars@.subrange(from + 1, end as int)] + more_tags_at(chars@, end as int).1
                == texts(tags@) + more_tags_at(chars@, at as int).1,
            more_tags_at(chars@, end as int).0 == more_tags_at(chars@, at as int).0,
            tags_at(chars@, from as int) matches Ok((stop, all)) && stop == more_tags_at(
                chars@,
                end as int,
            ).0 && all == seq![chars@.subrange(from + 1, end as int)] + more_tags_at(
                chars@,
                end as int,
            ).1,
        decreases chars@.len() - at,
    {
        if !(at < chars.len() && chars[at] == ',') {
            assert(texts(tags@) + Seq::<Seq<char>>::empty() =~= texts(tags@));
            return Ok((at, tags));
        }
        let stop = scan(chars, at + 1, CharClass::Tag);
        if stop == at + 1 {
            assert(texts(tags@) + Seq::<Seq<char>>::empty() =~= texts(tags@));
            return Ok((at, tags));
        }
        let ghost before = texts(tags@);
        tags.push(text_of(chars, at + 1, stop));
        assert(texts(tags@) =~= before.push(chars@.subrange(at + 1, stop as int)));
        assert(before + (seq![chars@.subrange(at + 1, stop as int)] + more_tags_at(
            chars@,
            stop as int,
        ).1) =~= texts(tags@) + more_tags_at(chars@, stop as int).1);
        at = stop;
    }
}

/// Reads a list of tags from the start of `input`, and gives back what
/// follows it.
pub fn parse(input: &str) -> (result: Result<(&str, Vec<Tag>), ParseError>)
    ensures
        reports_tags(input@, result, tags_at(input@, 0)),
{
    let chars = chars_of(input);
    conclude(input, parse_at(chars.as_slice(), 0))
}

/// Whether the text can be a tag: alphanumeric characters and hyphens, and
/// at least one of them.
pub open spec fn is_tag(text: Seq<char>) -> bool {
    text.len() > 0 && all_in(text, CharClass::Tag)
}

/// The tags written one after the other with a comma before each.
pub open spec fn more_tags_text(tags: Seq<Seq<char>>) -> Seq<char>
    decreases tags.len(),
{
    if tags.len() == 0 {
        Seq::empty()
    } else {
        seq![','] + tags[0] + more_tags_text(tags.drop_first())
    }
}

/// A list of tags as it is written: a semicolon, and the tags with a comma
/// between each two.
pub open spec fn tags_text(tags: Seq<Seq<char>>) -> Seq<char> {
    seq![';'] + tags[0] + more_tags_text(tags.drop_first())
}

/// Tags that stand at the end of a text with a comma before each are read
/// back as they are, and to the end of the text. The comma is no
/// alphanumeric character.
pub proof fn lemma_more_tags_of_text(before: Seq<char>, tags: Seq<Seq<char>>)
    requires
        !alphanumeric_char(','),
        forall|i: int| 0 <= i < tags.len() ==> is_tag(#[trigger] tags[i]),
    ensures
        more_tags_at(before + more_tags_text(tags), before.len() as int) == (
            (before + more_tags_text(tags)).len() as int,
            tags,
        ),
    decreases tags.len(),
{
    let s = before + more_tags_text(tags);
    let from = before.len() as int;
    if tags.len() == 0 {
        assert(s =~= before);
        assert(tags =~= Seq::<Seq<char>>::empty());
    } else {
        let first = tags[0];
        let rest = tags.drop_first();
        let end = from + 1 + first.len();
        let longer = before + seq![','] + first;
        assert(is_tag(first));
        assert(s =~= longer + more_tags_text(rest));
        assert(s[from] == ',');
        assert forall|i: int| from + 1 <= i < end implies CharClass::Tag.contains(
            #[trigger] s[i],
        ) by {
            assert(s[i] == first[i - from - 1]);
        }
        if rest.len() > 0 {
            assert(s[end] == ',');
        }
        lemma_run_end_is(s, from + 1, end, CharClass::Tag);
        assert(s.subrange(from + 1, end) =~= first);
        assert forall|i: int| 0 <= i < rest.len() implies is_tag(#[trigger] rest[i]) by {
            assert(rest[i] == tags[i + 1]);
        }
        lemma_more_tags_of_text(longer, rest);
        assert(seq![first] + rest =~= tags);
    }
}

/// Reading is idempotent on lists of tags: tags that are written as a list
/// are read back as they are, and to the end of the text. The comma is no
/// alphanumeric character.
pub proof fn lemma_tags_read_again(tags: Seq<Seq<char>>)
    requires
        !alphanumeric_char(','),
        tags.len() > 0,
        forall|i: int| 0 <= i < tags.len() ==> is_tag(#[trigger] tags[i]),
    ensures
        tags_at(tags_text(tags), 0) == Ok::<_, crate::parser::error::Rejection>(
            (tags_text(tags).len() as int, tags),
        ),
{
    let s = tags_text(tags);
    let first = tags[0];
    let rest = tags.drop_first();
    let end = 1 + first.len() as int;
    let before = seq![';'] + first;
    assert(is_tag(first));
    assert(s =~= before + more_tags_text(rest));
    assert(s[0] == ';');
    assert forall|i: int| 1 <= i < end implies CharClass::Tag.contains(#[trigger] s[i]) by {
        assert(s[i] == first[i - 1]);
    }
    if rest.len() > 0 {
        assert(s[end] == ',');
    }
    lemma_run_end_is(s, 1, end, CharClass::Tag);
    assert(s.subrange(1, end) =~= first);
    assert forall|i: int| 0 <= i < rest.len() implies is_tag(#[trigger] rest[i]) by {
        assert(rest[i] == tags[i + 1]);
    }
    lemma_more_tags_of_text(before, rest);
    assert(seq![first] + rest =~= tags);
}

/// The tags that are read after the first are behind the position they
/// are read from.
proof fn lemma_more_tags_at(s: Seq<char>, from: int)
    requires
        0 <= from <= s.len(),
    ensures
        from <= more_tags_at(s, from).0 <= s.len(),
    decreases s.len() - from,
{
    let end = run_end(s, from + 1, CharClass::Tag);
    if from < s.len() && s[from] == ',' && from + 1 < end <= s.len() {
        lemma_more_tags_at(s, end);
    }
}

proof fn lemma_more_tags_in_prefix(s: Seq<char>, from: int, m: int)
    requires
        0 <= from <= m <= s.len(),
        more_tags_at(s, from).0 <= m,
    ensures
        more_tags_at(s.take(m), from) == more_tags_at(s, from),
    decreases s.len() - from,
{
    let t = s.take(m);
    let end = run_end(s, from + 1, CharClass::Tag);
    if from < s.len() {
        lemma_run_end(s, from + 1, CharClass::Tag);
        if s[from] == ',' && from + 1 < end {
            lemma_more_tags_at(s, end);
            lemma_more_tags_in_prefix(s, end, m);
            assert(t.subrange(from + 1, end) =~= s.subrange(from + 1, end));
        }
    }
    if from < m {
        assert(t[from] == s[from]);
        lemma_run_end_in_prefix(s, from + 1, m, CharClass::Tag);
    }
}

/// What is read does not depend on what follows: a list of tags that is
/// read from a text is read alike from the text cut off anywhere behind
/// it, and where none can be read, none can from the text cut off
/// anywhere.
pub proof fn lemma_tags_in_prefix(s: Seq<char>, from: int, m: int)
    requires
        0 <= from <= m <= s.len(),
    ensures
        tags_at(s, from) matches Ok((end, _)) && end <= m ==> tags_at(s.take(m), from) == tags_at(
            s,
            from,
        ),
        tags_at(s, from) is Err ==> tags_at(s.take(m), from) is Err,
{
    let t = s.take(m);
    let end = run_end(s, from + 1, CharClass::Tag);
    if from < s.len() {
        lemma_run_end(s, from + 1, CharClass::Tag);
        if s[from] == ';' && end > from + 1 {
            lemma_more_tags_at(s, end);
            if more_tags_at(s, end).0 <= m {
                lemma_more_tags_in_prefix(s, end, m);
                assert(t.subrange(from + 1, end) =~= s.subrange(from + 1, end));
            }
        }
    }
    if from < m {
        assert(t[from] == s[from]);
        lemma_run_end_in_prefix(s, from + 1, m, CharClass::Tag);
    }
}

/// A list of tags that is read ends behind the position it is read from.
pub proof fn lemma_tags_at(s: Seq<char>, from: int)
    requires
        0 <= from <= s.len(),
    ensures
        tags_at(s, from) matches Ok((end, _)) ==> from < end <= s.len(),
{
    if from < s.len() {
        let end = run_end(s, from + 1, CharClass::Tag);
        lemma_run_end(s, from + 1, CharClass::Tag);
        lemma_more_tags_at(s, end);
    }
}

} // verus!

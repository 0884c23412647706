//! Account paths: `root:child:grandchild`.

use vstd::prelude::*;

use super::ast::{texts, Account, AccountView};
use super::error::{agrees, conclude, error_at, reports, within, ErrorKind, Failure, Outcome, ParseError};
use crate::text::{
    all_in, chars_of, lemma_run_end, lemma_run_end_in_prefix, lemma_run_end_is, run_end, scan,
    skip, skip_char, text_of, CharClass,
};

verus! {

/// The segments that follow one another from `from` on, each a run of
/// ASCII letters and digits and each but the last followed by a colon,
/// which may also stand after the last. With them, the position after the
/// last segment and its colon.
pub open spec fn children_at(s: Seq<char>, from: int) -> (int, Seq<Seq<char>>)
    decreases s.len() - from,
{
    let end = run_end(s, from, CharClass::AsciiAlphanumeric);
    if 0 <= from < end <= s.len() {
        let (stop, rest) = children_at(s, skip_char(s, end, ':'));
        (stop, seq![s.subrange(from, end)] + rest)
    } else {
        (from, Seq::empty())
    }
}

/// An account path at `from`: a root segment, then the children. It is
/// rejected where no letter or digit stands at `from`.
pub open spec fn account_at(s: Seq<char>, from: int) -> Outcome<AccountView> {
    let end = run_end(s, from, CharClass::AsciiAlphanumeric);
    if end == from {
        Err(error_at(from, ErrorKind::AlphaNumeric))
    } else {
        let (stop, children) = children_at(s, skip_char(s, end, ':'));
        Ok((stop, AccountView { name: s.subrange(from, end), children }))
    }
}

/// Reads an account path that starts at the position `from` of `chars`.
pub fn parse_at(chars: &[char], from: usize) -> (outcome: Result<(usize, Account), Failure>)
    requires
        from <= chars@.len(),
    ensures
        agrees(outcome, account_at(chars@, from as int)),
        within(outcome, from as int, chars@.len() as int),
{
    let end = scan(chars, from, CharClass::AsciiAlphanumeric);
    if end == from {
        return Err(Failure::error(from, ErrorKind::AlphaNumeric));
    }
    let name = text_of(chars, from, end);
    let mut children: Vec<String> = Vec::new();
    let first: usize = skip(chars, end, ':');
    let mut at: usize = first;
    let mut stop: usize = scan(chars, at, CharClass::AsciiAlphanumeric);
    assert(texts(children@) =~= Seq::<Seq<char>>::empty());
    while stop > at
        invariant
            from <= at <= stop <= chars@.len(),
            stop == run_end(chars@, at as int, CharClass::AsciiAlphanumeric),
            children_at(chars@, first as int) == (
                children_at(chars@, at as int).0,
                texts(children@) + children_at(chars@, at as int).1,
            ),
        decreases chars@.len() - at,
    {
        let ghost before = texts(children@);
        let child = text_of(chars, at, stop);
        children.push(child);
        assert(texts(children@) =~= before.push(chars@.subrange(at as int, stop as int)));
        let next: usize = skip(chars, stop, ':');
        assert(before + (seq![chars@.subrange(at as int, stop as int)] + children_at(
            chars@,
            next as int,
        ).1) =~= texts(children@) + children_at(chars@, next as int).1);
        at = next;
        stop = scan(chars, at, CharClass::AsciiAlphanumeric);
    }
    assert(texts(children@) + Seq::<Seq<char>>::empty() =~= texts(children@));
    Ok((at, Account { name, children }))
}

/// Reads an account path from the start of `input`, and gives back what
/// follows it.
pub fn parse(input: &str) -> (result: Result<(&str, Account), ParseError>)
    ensures
        reports(input@, result, account_at(input@, 0)),
{
    let chars = chars_of(input);
    conclude(input, parse_at(chars.as_slice(), 0))
}

/// The segments written one after the other with a colon between each two.
pub open spec fn joined(segments: Seq<Seq<char>>) -> Seq<char>
    decreases segments.len(),
{
    if segments.len() == 0 {
        Seq::empty()
    } else if segments.len() == 1 {
        segments[0]
    } else {
        segments[0] + seq![':'] + joined(segments.drop_first())
    }
}

/// The account as a path: its name, and its children behind it with a
/// colon before each.
pub open spec fn path_text(account: AccountView) -> Seq<char> {
    if account.children.len() == 0 {
        account.name
    } else {
        account.name + seq![':'] + joined(account.children)
    }
}

/// Whether the text can be a segment of a path: ASCII letters and digits,
/// and at least one of them.
pub open spec fn is_segment(text: Seq<char>) -> bool {
    text.len() > 0 && all_in(text, CharClass::AsciiAlphanumeric)
}

/// Whether the name and the children of the account are segments.
pub open spec fn is_path(account: AccountView) -> bool {
    is_segment(account.name) && forall|i: int|
        0 <= i < account.children.len() ==> is_segment(#[trigger] account.children[i])
}

/// The children that are read from a position are segments, and the text
/// that was consumed is those segments with a colon between each two, and
/// possibly one more colon at the end.
pub proof fn lemma_children_at(s: Seq<char>, from: int)
    requires
        0 <= from <= s.len(),
    ensures
        from <= children_at(s, from).0 <= s.len(),
        forall|i: int|
            0 <= i < children_at(s, from).1.len() ==> is_segment(
                #[trigger] children_at(s, from).1[i],
            ),
        s.subrange(from, children_at(s, from).0) == joined(children_at(s, from).1) || (
        children_at(s, from).1.len() > 0 && s.subrange(from, children_at(s, from).0) == joined(
            children_at(s, from).1,
        ) + seq![':']),
    decreases s.len() - from,
{
    let end = run_end(s, from, CharClass::AsciiAlphanumeric);
    lemma_run_end(s, from, CharClass::AsciiAlphanumeric);
    if from < end {
        let next = skip_char(s, end, ':');
        let (stop, rest) = children_at(s, next);
        let child = s.subrange(from, end);
        let children = seq![child] + rest;
        lemma_children_at(s, next);
        assert(children.drop_first() =~= rest);
        assert forall|i: int| 0 <= i < children.len() implies is_segment(
            #[trigger] children[i],
        ) by {
            if i > 0 {
                assert(children[i] == rest[i - 1]);
            }
        }
        if next == end {
            lemma_run_end_is(s, end, end, CharClass::AsciiAlphanumeric);
            assert(s.subrange(from, stop) =~= joined(children));
        } else {
            assert(s.subrange(from, stop) =~= child + seq![':'] + s.subrange(next, stop));
            if rest.len() == 0 {
                assert(s.subrange(from, stop) =~= joined(children) + seq![':']);
            } else if s.subrange(next, stop) == joined(rest) {
                assert(s.subrange(from, stop) =~= joined(children));
            } else {
                assert(s.subrange(from, stop) =~= joined(children) + seq![':']);
            }
        }
    } else {
        assert(s.subrange(from, from) =~= Seq::<char>::empty());
    }
}

/// Reading an account and writing it as a path again gives the text that
/// was consumed, but for a colon at its end.
pub proof fn lemma_path_text_of_account(s: Seq<char>, from: int)
    requires
        0 <= from <= s.len(),
        account_at(s, from) is Ok,
    ensures
        ({
            let (end, account) = account_at(s, from)->Ok_0;
            &&& from < end <= s.len()
            &&& is_path(account)
            &&& s.subrange(from, end) == path_text(account) || s.subrange(from, end) == path_text(
                account,
            ) + seq![':']
        }),
{
    let name_end = run_end(s, from, CharClass::AsciiAlphanumeric);
    lemma_run_end(s, from, CharClass::AsciiAlphanumeric);
    let next = skip_char(s, name_end, ':');
    let (end, children) = children_at(s, next);
    let name = s.subrange(from, name_end);
    lemma_children_at(s, next);
    if next == name_end {
        lemma_run_end_is(s, name_end, name_end, CharClass::AsciiAlphanumeric);
        assert(s.subrange(from, end) =~= name);
    } else {
        assert(s.subrange(from, end) =~= name + seq![':'] + s.subrange(next, end));
        if children.len() == 0 {
            assert(s.subrange(next, end) =~= Seq::<char>::empty());
            assert(s.subrange(from, end) =~= name + seq![':']);
        }
    }
}

/// Segments that stand at the end of a text with a colon between each two
/// are read back as they are, and to the end of the text.
pub proof fn lemma_children_of_joined(before: Seq<char>, segments: Seq<Seq<char>>)
    requires
        forall|i: int| 0 <= i < segments.len() ==> is_segment(#[trigger] segments[i]),
    ensures
        children_at(before + joined(segments), before.len() as int) == (
            (before + joined(segments)).len() as int,
            segments,
        ),
    decreases segments.len(),
{
    let s = before + joined(segments);
    let from = before.len() as int;
    if segments.len() == 0 {
        assert(s =~= before);
    } else {
        let first = segments[0];
        let rest = segments.drop_first();
        let end = from + first.len();
        assert(is_segment(first));
        assert forall|i: int| from <= i < end implies CharClass::AsciiAlphanumeric.contains(
            #[trigger] s[i],
        ) by {
            assert(s[i] == first[i - from]);
        }
        if segments.len() == 1 {
            assert(s =~= before + first);
            lemma_run_end_is(s, from, end, CharClass::AsciiAlphanumeric);
            assert(s.subrange(from, end) =~= first);
            assert(children_at(s, end) == (end, Seq::<Seq<char>>::empty()));
            assert(seq![first] + Seq::<Seq<char>>::empty() =~= segments);
        } else {
            let longer = before + first + seq![':'];
            assert(s =~= longer + joined(rest));
            assert(s[end] == ':');
            lemma_run_end_is(s, from, end, CharClass::AsciiAlphanumeric);
            assert(s.subrange(from, end) =~= first);
            assert forall|i: int| 0 <= i < rest.len() implies is_segment(#[trigger] rest[i]) by {
                assert(rest[i] == segments[i + 1]);
            }
            lemma_children_of_joined(longer, rest);
            assert(seq![first] + rest =~= segments);
        }
    }
}

/// An account whose name and children are segments, written as a path at
/// the end of a text, is read back as it is, and to the end of the text.
pub proof fn lemma_account_of_path_text(before: Seq<char>, account: AccountView)
    requires
        is_path(account),
    ensures
        account_at(before + path_text(account), before.len() as int) == Ok::<
            _,
            super::error::Rejection,
        >(((before + path_text(account)).len() as int, account)),
{
    let s = before + path_text(account);
    let from = before.len() as int;
    let end = from + account.name.len();
    assert forall|i: int| from <= i < end implies CharClass::AsciiAlphanumeric.contains(
        #[trigger] s[i],
    ) by {
        assert(s[i] == account.name[i - from]);
    }
    if account.children.len() == 0 {
        lemma_run_end_is(s, from, end, CharClass::AsciiAlphanumeric);
        assert(s.subrange(from, end) =~= account.name);
        assert(children_at(s, end) == (end, Seq::<Seq<char>>::empty()));
        assert(account.children =~= Seq::<Seq<char>>::empty());
    } else {
        let longer = before + account.name + seq![':'];
        assert(s =~= longer + joined(account.children));
        assert(s[end] == ':');
        lemma_run_end_is(s, from, end, CharClass::AsciiAlphanumeric);
        assert(s.subrange(from, end) =~= account.name);
        lemma_children_of_joined(longer, account.children);
    }
}

/// Reading is idempotent on accounts: an account that was read from any
/// text, written as a path and read again, is the same account.
pub proof fn lemma_account_read_again(s: Seq<char>, from: int)
    requires
        0 <= from <= s.len(),
        account_at(s, from) is Ok,
    ensures
        ({
            let account = account_at(s, from)->Ok_0.1;
            account_at(path_text(account), 0) == Ok::<_, super::error::Rejection>(
                (path_text(account).len() as int, account),
            )
        }),
{
    let account = account_at(s, from)->Ok_0.1;
    lemma_path_text_of_account(s, from);
    lemma_account_of_path_text(Seq::empty(), account);
    assert(Seq::<char>::empty() + path_text(account) =~= path_text(account));
}

/// The children that are read from a position are read alike from the
/// text cut off anywhere behind them.
pub proof fn lemma_children_in_prefix(s: Seq<char>, from: int, m: int)
    requires
        0 <= from <= m <= s.len(),
        children_at(s, from).0 <= m,
    ensures
        children_at(s.take(m), from) == children_at(s, from),
    decreases s.len() - from,
{
    let class = CharClass::AsciiAlphanumeric;
    let end = run_end(s, from, class);
    lemma_run_end(s, from, class);
    lemma_run_end_in_prefix(s, from, m, class);
    if from < end {
        let next = skip_char(s, end, ':');
        lemma_children_at(s, next);
        lemma_children_in_prefix(s, next, m);
        assert(skip_char(s.take(m), end, ':') == next);
        assert(s.take(m).subrange(from, end) =~= s.subrange(from, end));
    }
}

/// What is read does not depend on what follows: an account that is read
/// from a text is read alike from the text cut off anywhere behind it.
pub proof fn lemma_account_in_prefix(s: Seq<char>, from: int, m: int)
    requires
        0 <= from <= m <= s.len(),
    ensures
        account_at(s, from) matches Ok((end, _)) && end <= m ==> account_at(s.take(m), from)
            == account_at(s, from),
        account_at(s, from) is Err ==> account_at(s.take(m), from) == account_at(s, from),
{
    let class = CharClass::AsciiAlphanumeric;
    let end = run_end(s, from, class);
    lemma_run_end(s, from, class);
    lemma_run_end_in_prefix(s, from, m, class);
    if end > from {
        let next = skip_char(s, end, ':');
        lemma_children_at(s, next);
        if children_at(s, next).0 <= m {
            lemma_children_in_prefix(s, next, m);
            assert(skip_char(s.take(m), end, ':') == next);
            assert(s.take(m).subrange(from, end) =~= s.subrange(from, end));
        }
    }
}

} // verus!

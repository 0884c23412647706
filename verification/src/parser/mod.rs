//! The grammar of a journal.

pub mod account;
pub mod amount;
pub mod ast;
pub mod comment;
pub mod common;
pub mod error;
pub mod journal_year;
pub mod transactions;

use nom::error::{VerboseError, VerboseErrorKind};
use vstd::prelude::*;

use self::account::{
    account_at, is_path, lemma_account_in_prefix, lemma_account_of_path_text,
    lemma_path_text_of_account, path_text,
};
use self::ast::{element_views, Account, AccountView, JournalElement, JournalElementView};
use self::comment::{comment_at, lemma_comment_in_prefix, lemma_line_end_from};
use self::error::{agrees, error_at, within, ErrorKind, Failure, Outcome, Severity};
use self::journal_year::{lemma_year_in_prefix, lemma_year_read_again, year_at, year_text};
use self::transactions::{lemma_transaction_at, lemma_transaction_in_prefix, transaction_at};
use crate::text::{
    chars_of, lemma_run_end, lemma_run_end_in_prefix, lemma_run_end_is, numeric_char, run_end,
    scan, stands_at, word_at, CharClass,
};

verus! {

/// The rule that a line of a failure trace names.
#[derive(Debug, PartialEq, Eq, Clone, Copy)]
pub enum TraceLabel {
    /// The journal goes on with something that is no element.
    ManyTill,
    /// A digit was expected.
    Digit,
    /// The digits spell a number that is too large.
    MapRes,
    /// The failure happened inside the construct of this name.
    Context(&'static str),
}

/// A trace label, as a value.
pub enum TraceLabelView {
    ManyTill,
    Digit,
    MapRes,
    Context(Seq<char>),
}

impl View for TraceLabel {
    type V = TraceLabelView;

    open spec fn view(&self) -> TraceLabelView {
        match self {
            TraceLabel::ManyTill => TraceLabelView::ManyTill,
            TraceLabel::Digit => TraceLabelView::Digit,
            TraceLabel::MapRes => TraceLabelView::MapRes,
            TraceLabel::Context(name) => TraceLabelView::Context(name@),
        }
    }
}

/// One line of a failure trace: a rule, and the position in the journal at
/// which it was at work.
pub struct TraceLine {
    pub at: int,
    pub label: TraceLabelView,
}

/// One line of a failure trace, with the position as a machine integer.
#[derive(Debug, PartialEq, Eq, Clone, Copy)]
pub struct TraceEntry {
    pub offset: usize,
    pub label: TraceLabel,
}

impl View for TraceEntry {
    type V = TraceLine;

    open spec fn view(&self) -> TraceLine {
        TraceLine { at: self.offset as int, label: self.label@ }
    }
}

/// The lines of a trace.
pub open spec fn trace_lines(trace: Seq<TraceEntry>) -> Seq<TraceLine> {
    trace.map_values(|entry: TraceEntry| entry@)
}

/// The message that nom's `convert_error` writes for a journal and a
/// failure trace whose lines stand at the given character positions of it,
/// the innermost line first.
pub uninterp spec fn error_trace_text(content: Seq<char>, trace: Seq<TraceLine>) -> Seq<char>;

/// Calls nom's `convert_error` on a `VerboseError` that holds, for each
/// entry, the rest of `content` from the entry's position and the entry's
/// label as nom's error kind or context. The contract names the message
/// `error_trace_text`.
#[verifier::external_body]
fn render_trace(content: &str, trace: &Vec<TraceEntry>) -> (message: String)
    ensures
        message@ == error_trace_text(content@, trace_lines(trace@)),
{
    let locate = |n: usize| content.char_indices().nth(n).map_or(content.len(), |found| found.0);
    let label = |label: TraceLabel| match label {
        TraceLabel::ManyTill => VerboseErrorKind::Nom(nom::error::ErrorKind::ManyTill),
        TraceLabel::Digit => VerboseErrorKind::Nom(nom::error::ErrorKind::Digit),
        TraceLabel::MapRes => VerboseErrorKind::Nom(nom::error::ErrorKind::MapRes),
        TraceLabel::Context(name) => VerboseErrorKind::Context(name),
    };
    let errors = trace.iter().map(|e| (&content[locate(e.offset)..], label(e.label))).collect();
    nom::error::convert_error(content, VerboseError { errors })
}

/// The word that opens the declaration of an account.
pub open spec fn declaration_word() -> Seq<char> {
    seq!['a', 'c', 'c', 'o', 'u', 'n', 't']
}

/// The declaration of an account at `from`: the word `account`, spaces or
/// tabs, and an account path. It is rejected where one of the three is
/// missing.
pub open spec fn declaration_at(s: Seq<char>, from: int) -> Outcome<AccountView> {
    if !word_at(s, from, declaration_word()) {
        Err(error_at(from, ErrorKind::Tag))
    } else {
        let path_start = run_end(s, from + 7, CharClass::Space);
        if path_start == from + 7 {
            Err(error_at(from + 7, ErrorKind::Space))
        } else {
            account_at(s, path_start)
        }
    }
}

/// The name of the year directive in a failure trace.
pub open spec fn year_directive_name() -> Seq<char> {
    "journal year"@
}

/// The trace of a year directive that failed: the failure itself, and the
/// directive that it happened in.
pub open spec fn year_trace(at: int, code: ErrorKind, directive: int) -> Seq<TraceLine> {
    seq![
        TraceLine {
            at,
            label: if code == ErrorKind::Digit {
                TraceLabelView::Digit
            } else {
                TraceLabelView::MapRes
            },
        },
        TraceLine { at: directive, label: TraceLabelView::Context(year_directive_name()) },
    ]
}

/// The element at `from`: the first that matches of the declaration of an
/// account, a comment, a year directive and a transaction; where none
/// does, the empty element, which consumes the white space at `from`. A
/// year directive that is malformed ends the reading with its trace.
pub open spec fn element_at(s: Seq<char>, from: int) -> Result<
    (int, JournalElementView),
    Seq<TraceLine>,
> {
    if let Ok((end, account)) = declaration_at(s, from) {
        Ok((end, JournalElementView::Account(account)))
    } else if let Ok((end, _)) = comment_at(s, from) {
        Ok((end, JournalElementView::Comment))
    } else {
        match year_at(s, from) {
            Ok((end, year)) => Ok((end, JournalElementView::Year(year))),
            Err(rejection) => if rejection.severity == Severity::Failure {
                Err(year_trace(rejection.at, rejection.code, from))
            } else if let Ok((end, transaction)) = transaction_at(s, from) {
                Ok((end, JournalElementView::Transaction(transaction)))
            } else {
                Ok((run_end(s, from, CharClass::Multispace), JournalElementView::Empty))
            },
        }
    }
}

/// The trace of a journal that goes on at `at` with something that is no
/// element.
pub open spec fn stalled_trace(at: int) -> Seq<TraceLine> {
    seq![TraceLine { at, label: TraceLabelView::ManyTill }]
}

/// The elements of the journal from `from` on: until the text ends, white
/// space and then an element. Where an element consumes nothing and no
/// white space stood before it, the reading stops with the trace of that
/// position.
pub open spec fn journal_from(s: Seq<char>, from: int) -> Result<
    Seq<JournalElementView>,
    Seq<TraceLine>,
>
    decreases s.len() - from,
{
    if from >= s.len() {
        Ok(Seq::empty())
    } else {
        match element_at(s, run_end(s, from, CharClass::Multispace)) {
            Ok((end, element)) => if from < end <= s.len() {
                match journal_from(s, end) {
                    Ok(rest) => Ok(seq![element] + rest),
                    Err(trace) => Err(trace),
                }
            } else {
                Err(stalled_trace(end))
            },
            Err(trace) => Err(trace),
        }
    }
}

/// The elements of a journal that has been read up to some position:
/// those read so far, and those that follow.
pub open spec fn read_so_far(
    read: Seq<JournalElementView>,
    rest: Result<Seq<JournalElementView>, Seq<TraceLine>>,
) -> Result<Seq<JournalElementView>, Seq<TraceLine>> {
    match rest {
        Ok(rest) => Ok(read + rest),
        Err(trace) => Err(trace),
    }
}

/// Reads the declaration of an account at the position `from` of `chars`.
pub fn parse_declaration_at(chars: &[char], from: usize) -> (outcome: Result<
    (usize, Account),
    Failure,
>)
    requires
        from <= chars@.len(),
    ensures
        agrees(outcome, declaration_at(chars@, from as int)),
        within(outcome, from as int, chars@.len() as int),
{
    let word: Vec<char> = vec!['a', 'c', 'c', 'o', 'u', 'n', 't'];
    assert(word@ =~= declaration_word());
    if !stands_at(chars, from, word.as_slice()) {
        return Err(Failure::error(from, ErrorKind::Tag));
    }
    let path_start = scan(chars, from + 7, CharClass::Space);
    if path_start == from + 7 {
        return Err(Failure::error(from + 7, ErrorKind::Space));
    }
    account::parse_at(chars, path_start)
}

/// Reads the element at the position `from` of `chars`.
pub fn parse_element_at(chars: &[char], from: usize) -> (outcome: Result<
    (usize, JournalElement),
    Vec<TraceEntry>,
>)
    requires
        from <= chars@.len(),
    ensures
        match element_at(chars@, from as int) {
            Ok((end, element)) => outcome matches Ok((e, v)) && e == end && v@ == element && from
                <= e <= chars@.len(),
            Err(trace) => outcome matches Err(t) && trace_lines(t@) == trace,
        },
{
    if let Ok((end, account)) = parse_declaration_at(chars, from) {
        return Ok((end, JournalElement::Account(account)));
    }
    if let Ok((end, _)) = comment::parse_at(chars, from) {
        return Ok((end, JournalElement::Comment));
    }
    match journal_year::parse_at(chars, from) {
        Ok((end, year)) => {
            return Ok((end, JournalElement::Year(year)));
        },
        Err(failure) => match failure.severity {
            Severity::Failure => {
                let label = match failure.code {
                    ErrorKind::Digit => TraceLabel::Digit,
                    _ => TraceLabel::MapRes,
                };
                let trace: Vec<TraceEntry> = vec![
                    TraceEntry { offset: failure.at, label },
                    TraceEntry { offset: from, label: TraceLabel::Context("journal year") },
                ];
                assert(trace_lines(trace@) =~= year_trace(
                    failure.at as int,
                    failure.code,
                    from as int,
                ));
                return Err(trace);
            },
            Severity::Error => {},
        },
    }
    if let Ok((end, transaction)) = transactions::parse_at(chars, from) {
        return Ok((end, JournalElement::Transaction(transaction)));
    }
    Ok((scan(chars, from, CharClass::Multispace), JournalElement::Empty))
}

/// Reads a journal into its elements, in the order in which they stand in
/// it; or gives the trace of the failure.
pub fn parse_elements(content: &str) -> (result: Result<Vec<JournalElement>, Vec<TraceEntry>>)
    ensures
        match journal_from(content@, 0) {
            Ok(elements) => result matches Ok(v) && element_views(v@) == elements,
            Err(trace) => result matches Err(t) && trace_lines(t@) == trace,
        },
{
    let text = chars_of(content);
    let chars = text.as_slice();
    let mut elements: Vec<JournalElement> = Vec::new();
    let mut at: usize = 0;
    assert(element_views(elements@) =~= Seq::<JournalElementView>::empty());
    while at < chars.len()
        invariant
            at <= chars@.len(),
            chars@ == content@,
            journal_from(chars@, 0) == read_so_far(
                element_views(elements@),
                journal_from(chars@, at as int),
            ),
        decreases chars@.len() - at,
    {
        let start = scan(chars, at, CharClass::Multispace);
        match parse_element_at(chars, start) {
            Ok((end, element)) => {
                if end == at {
                    let trace: Vec<TraceEntry> = vec![
                        TraceEntry { offset: end, label: TraceLabel::ManyTill },
                    ];
                    assert(trace_lines(trace@) =~= stalled_trace(end as int));
                    return Err(trace);
                }
                let ghost before = element_views(elements@);
                let ghost added = element@;
                elements.push(element);
                proof {
                    assert(element_views(elements@) =~= before.push(added));
                    match journal_from(chars@, end as int) {
                        Ok(rest) => {
                            assert(before + (seq![added] + rest) =~= element_views(elements@)
                                + rest);
                        },
                        Err(_) => {},
                    }
                }
                at = end;
            },
            Err(trace) => {
                return Err(trace);
            },
        }
    }
    assert(element_views(elements@) + Seq::<JournalElementView>::empty() =~= element_views(
        elements@,
    ));
    Ok(elements)
}

/// Reads a journal into its elements; or gives the message that describes
/// the failure, with the line and the rule at each line of the trace.
pub fn parse_journal(content: &str) -> (result: Result<Vec<JournalElement>, String>)
    ensures
        match journal_from(content@, 0) {
            Ok(elements) => result matches Ok(v) && element_views(v@) == elements,
            Err(trace) => result matches Err(message) && message@ == error_trace_text(
                content@,
                trace,
            ),
        },
{
    match parse_elements(content) {
        Ok(elements) => Ok(elements),
        Err(trace) => Err(render_trace(content, &trace)),
    }
}

/// An element as it is written, for the elements that are written in one
/// way only: nothing for the empty element, the declaration of an account,
/// an empty comment, the directive of a year.
pub open spec fn element_text(element: JournalElementView) -> Seq<char> {
    match element {
        JournalElementView::Empty => Seq::empty(),
        JournalElementView::Account(account) => declaration_word() + seq![' '] + path_text(
            account,
        ),
        JournalElementView::Comment => seq!['/', '/', '\n'],
        JournalElementView::Year(year) => year_text(year),
        JournalElementView::Transaction(_) => Seq::empty(),
    }
}

/// Reading is idempotent on the elements of a journal other than
/// transactions: such an element, written down, is read back as it is, to
/// the end of the text.
pub proof fn lemma_element_read_again(element: JournalElementView)
    requires
        !(element is Transaction),
        element matches JournalElementView::Account(account) ==> is_path(account),
    ensures
        element_at(element_text(element), 0) == Ok::<_, Seq<TraceLine>>(
            (element_text(element).len() as int, element),
        ),
{
    let s = element_text(element);
    match element {
        JournalElementView::Empty => {
            assert(s.len() == 0);
        },
        JournalElementView::Account(account) => {
            let before = declaration_word() + seq![' '];
            assert(s =~= before + path_text(account));
            assert(s.subrange(0, 7) =~= declaration_word());
            assert(s[7] == ' ');
            assert(s[8] == account.name[0]);
            assert(CharClass::AsciiAlphanumeric.contains(account.name[0]));
            lemma_run_end_is(s, 7, 8, CharClass::Space);
            lemma_account_of_path_text(before, account);
        },
        JournalElementView::Comment => {
            assert(s[0] == '/' && s[1] == '/' && s[2] == '\n');
            if word_at(s, 0, declaration_word()) {
                assert(s.subrange(0, 7)[0] == 'a');
            }
        },
        JournalElementView::Year(year) => {
            lemma_year_read_again(year);
            assert(s[0] == 'y');
            if word_at(s, 0, declaration_word()) {
                assert(s.subrange(0, 7)[0] == 'a');
            }
        },
        JournalElementView::Transaction(_) => {},
    }
}

/// The declaration of an account that is read from a text is read alike
/// from the text cut off anywhere behind it, and where none can be read,
/// none can from the text cut off anywhere.
proof fn lemma_declaration_in_prefix(s: Seq<char>, from: int, m: int)
    requires
        0 <= from <= m <= s.len(),
    ensures
        declaration_at(s, from) matches Ok((end, _)) && end <= m ==> declaration_at(
            s.take(m),
            from,
        ) == declaration_at(s, from),
        declaration_at(s, from) is Err ==> declaration_at(s.take(m), from) is Err,
{
    let t = s.take(m);
    if from + 7 <= m {
        assert(t.subrange(from, from + 7) =~= s.subrange(from, from + 7));
        let path_start = run_end(s, from + 7, CharClass::Space);
        lemma_run_end(s, from + 7, CharClass::Space);
        lemma_run_end_in_prefix(s, from + 7, m, CharClass::Space);
        if path_start <= m {
            lemma_account_in_prefix(s, path_start, m);
        }
        if account_at(s, path_start) is Ok {
            lemma_path_text_of_account(s, path_start);
        }
    } else if word_at(s, from, declaration_word()) {
        let path_start = run_end(s, from + 7, CharClass::Space);
        lemma_run_end(s, from + 7, CharClass::Space);
        if account_at(s, path_start) is Ok {
            lemma_path_text_of_account(s, path_start);
        }
    }
}

/// What is read does not depend on what follows: an element that is read
/// at a position where no white space stands is read alike from the text
/// cut off behind it, and so from the very text that it was read from. The
/// separators of dates are not numeric characters.
pub proof fn lemma_element_in_prefix(s: Seq<char>, from: int)
    requires
        0 <= from <= s.len(),
        run_end(s, from, CharClass::Multispace) == from,
        !numeric_char('-') && !numeric_char('/') && !numeric_char('.'),
    ensures
        element_at(s, from) matches Ok((end, _)) ==> from <= end <= s.len() && element_at(
            s.take(end),
            from,
        ) == element_at(s, from),
{
    if let Ok((end, _)) = element_at(s, from) {
        if let Ok((path_end, _)) = declaration_at(s, from) {
            lemma_run_end(s, from + 7, CharClass::Space);
            lemma_path_text_of_account(s, run_end(s, from + 7, CharClass::Space));
        }
        if comment_at(s, from) is Ok {
            lemma_line_end_from(s, from + 2);
        }
        if year_at(s, from) is Ok {
            lemma_run_end(s, from + 1, CharClass::AsciiDigit);
        }
        lemma_transaction_at(s, from);
        lemma_declaration_in_prefix(s, from, end);
        lemma_comment_in_prefix(s, from, end);
        lemma_year_in_prefix(s, from, end);
        lemma_transaction_in_prefix(s, from, end);
        lemma_run_end_in_prefix(s, from, end, CharClass::Multispace);
    }
}

} // verus!

//! Transactions: a date line and two postings.

pub mod payee_description_section;
pub mod posting;
pub mod status;
pub mod tags;

use vstd::prelude::*;

use self::payee_description_section::{lemma_section_at, lemma_section_in_prefix, section_at};
use self::posting::{lemma_postings_at, lemma_postings_in_prefix, postings_at};
use self::status::{lemma_status_in_prefix, status_at};
use self::tags::{lemma_tags_at, lemma_tags_in_prefix, tags_at};
use super::ast::{PayeeSectionType, PayeeSectionView, Transaction, TransactionView};
use super::common::date;
use super::common::date::{date_at, lemma_date_at, lemma_date_in_prefix, spells};
use super::error::{
    agrees, conclude, error_at, reports, within, ErrorKind, Failure, Outcome, ParseError,
};
use crate::text::{
    chars_of, lemma_line_ending_in_prefix, lemma_run_end, lemma_run_end_in_prefix, line_ending,
    line_ending_end, numeric_char, run_end, scan, CharClass,
};

verus! {

/// The payee that a section names; none where it is empty.
pub open spec fn payee_of(section: PayeeSectionView) -> Seq<char> {
    match section {
        PayeeSectionView::Empty => Seq::empty(),
        PayeeSectionView::PayeeOnly(payee) => payee,
        PayeeSectionView::PayeeAndDescription(payee, _) => payee,
    }
}

/// The description that a section gives; none where it has none.
pub open spec fn description_of(section: PayeeSectionView) -> Seq<char> {
    match section {
        PayeeSectionView::Empty => Seq::empty(),
        PayeeSectionView::PayeeOnly(_) => Seq::empty(),
        PayeeSectionView::PayeeAndDescription(_, description) => description,
    }
}

/// Where the optional list of tags that starts at `from`, after spaces and
/// tabs, ends, and the tags; none where no list can be read there.
pub open spec fn optional_tags_at(s: Seq<char>, from: int) -> (int, Seq<Seq<char>>) {
    let start = run_end(s, from, CharClass::Space);
    match tags_at(s, start) {
        Ok((end, tags)) => (end, tags),
        Err(_) => (start, Seq::empty()),
    }
}

/// A transaction at `from`: the date, the status, the payee and
/// description, the tags if there are any, a line ending, and two
/// postings. It is rejected where the date is, where the first line does
/// not end after the tags, and where the postings are; the rejection is
/// that of the part that did not match.
pub open spec fn transaction_at(s: Seq<char>, from: int) -> Outcome<TransactionView> {
    match date_at(s, from) {
        Ok((date_end, date)) => match status_at(s, date_end) {
            Ok((status_end, status)) => match section_at(s, status_end) {
                Ok((section_end, section)) => {
                    let (tags_end, tags) = optional_tags_at(s, section_end);
                    match line_ending_end(s, tags_end) {
                        Some(line_end) => match postings_at(s, line_end) {
                            Ok((end, postings)) => Ok(
                                (
                                    end,
                                    TransactionView {
                                        date,
                                        status,
                                        description: description_of(section),
                                        tags,
                                        payee: payee_of(section),
                                        postings,
                                    },
                                ),
                            ),
                            Err(rejection) => Err(rejection),
                        },
                        None => Err(error_at(tags_end, ErrorKind::CrLf)),
                    }
                },
                Err(rejection) => Err(rejection),
            },
            Err(rejection) => Err(rejection),
        },
        Err(rejection) => Err(rejection),
    }
}

/// Reads a transaction that starts at the position `from` of `chars`.
pub fn parse_at(chars: &[char], from: usize) -> (outcome: Result<(usize, Transaction), Failure>)
    requires
        from <= chars@.len(),
    ensures
        agrees(outcome, transaction_at(chars@, from as int)),
        within(outcome, from as int, chars@.len() as int),
        outcome matches Ok((_, transaction)) ==> spells(chars@, from as int, transaction.date),
{
    let (date_end, date) = match date::parse_at(chars, from) {
        Ok(read) => read,
        Err(failure) => {
            return Err(failure);
        },
    };
    let (status_end, status) = match status::parse_at(chars, date_end) {
        Ok(read) => read,
        Err(failure) => {
            return Err(failure);
        },
    };
    let (section_end, section) = match payee_description_section::parse_at(chars, status_end) {
        Ok(read) => read,
        Err(failure) => {
            return Err(failure);
        },
    };
    let tags_start = scan(chars, section_end, CharClass::Space);
    let (tags_end, tags) = match tags::parse_at(chars, tags_start) {
        Ok(read) => read,
        Err(_) => (tags_start, Vec::new()),
    };
    assert(super::ast::texts(tags@) =~= optional_tags_at(chars@, section_end as int).1);
    let line_end = match line_ending(chars, tags_end) {
        Some(end) => end,
        None => {
            return Err(Failure::error(tags_end, ErrorKind::CrLf));
        },
    };
    let (end, postings) = match posting::parse_multiple_at(chars, line_end) {
        Ok(read) => read,
        Err(failure) => {
            return Err(failure);
        },
    };
    let (payee, description) = match section {
        PayeeSectionType::Empty => (String::new(), String::new()),
        PayeeSectionType::PayeeOnly(payee) => (payee, String::new()),
        PayeeSectionType::PayeeAndDescription((payee, description)) => (payee, description),
    };
    Ok((end, Transaction { date, status, payee, description, tags, postings }))
}

/// Reads a transaction from the start of `input`, and gives back what
/// follows it.
pub fn parse(input: &str) -> (result: Result<(&str, Transaction), ParseError>)
    ensures
        reports(input@, result, transaction_at(input@, 0)),
        result matches Ok((_, transaction)) ==> spells(input@, 0, transaction.date),
{
    let chars = chars_of(input);
    conclude(input, parse_at(chars.as_slice(), 0))
}

/// A transaction that is read ends behind the position it is read from.
pub proof fn lemma_transaction_at(s: Seq<char>, from: int)
    requires
        0 <= from <= s.len(),
    ensures
        transaction_at(s, from) matches Ok((end, _)) ==> from < end <= s.len(),
{
    lemma_date_at(s, from);
    if let Ok((date_end, _)) = date_at(s, from) {
        let status_end = status_at(s, date_end)->Ok_0.0;
        lemma_section_at(s, status_end);
        let section_end = section_at(s, status_end)->Ok_0.0;
        lemma_run_end(s, section_end, CharClass::Space);
        lemma_tags_at(s, run_end(s, section_end, CharClass::Space));
        let tags_end = optional_tags_at(s, section_end).0;
        if let Some(line_end) = line_ending_end(s, tags_end) {
            lemma_postings_at(s, line_end);
        }
    }
}

/// What is read does not depend on what follows: a transaction that is
/// read from a text is read alike from the text cut off anywhere behind
/// it, and so from the very text that it was read from. The separators of
/// dates are not numeric characters.
pub proof fn lemma_transaction_in_prefix(s: Seq<char>, from: int, m: int)
    requires
        0 <= from <= m <= s.len(),
        !numeric_char('-') && !numeric_char('/') && !numeric_char('.'),
    ensures
        transaction_at(s, from) matches Ok((end, _)) && end <= m ==> transaction_at(
            s.take(m),
            from,
        ) == transaction_at(s, from),
{
    lemma_date_at(s, from);
    if let Ok((date_end, _)) = date_at(s, from) {
        let status_end = status_at(s, date_end)->Ok_0.0;
        lemma_section_at(s, status_end);
        let section_end = section_at(s, status_end)->Ok_0.0;
        let tags_start = run_end(s, section_end, CharClass::Space);
        lemma_run_end(s, section_end, CharClass::Space);
        lemma_tags_at(s, tags_start);
        let tags_end = optional_tags_at(s, section_end).0;
        if let Some(line_end) = line_ending_end(s, tags_end) {
            lemma_postings_at(s, line_end);
            if let Ok((end, _)) = postings_at(s, line_end) {
                if end <= m {
                    lemma_date_in_prefix(s, from, m);
                    lemma_status_in_prefix(s, date_end, m);
                    lemma_section_in_prefix(s, status_end, m);
                    lemma_run_end_in_prefix(s, section_end, m, CharClass::Space);
                    lemma_tags_in_prefix(s, tags_start, m);
                    lemma_line_ending_in_prefix(s, tags_end, m);
                    lemma_postings_in_prefix(s, line_end, m);
                }
            }
        }
    }
}

} // verus!

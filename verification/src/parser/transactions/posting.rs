//! Postings: an account and, on the same line, the amount moved to it.

use vstd::prelude::*;

use crate::parser::account;
use crate::parser::account::{account_at, lemma_account_in_prefix, lemma_path_text_of_account};
use crate::parser::amount;
use crate::parser::amount::{amount_at, lemma_amount_at, lemma_amount_in_prefix};
use crate::parser::ast::{Posting, PostingView};
use crate::parser::error::{
    agrees, conclude, error_at, reports, within, ErrorKind, Failure, Outcome, ParseError,
};
use crate::text::{
    chars_of, lemma_line_ending_in_prefix, lemma_run_end, lemma_run_end_in_prefix, line_ending,
    line_ending_end, run_end, scan, CharClass,
};

verus! {

/// A posting at `from`: an account path, spaces or tabs, and an amount
/// where one can be read there. Without one the posting has none and ends
/// after the spaces. It is rejected where the account path is.
pub open spec fn posting_at(s: Seq<char>, from: int) -> Outcome<PostingView> {
    match account_at(s, from) {
        Ok((account_end, account)) => {
            let amount_start = run_end(s, account_end, CharClass::Space);
            match amount_at(s, amount_start) {
                Ok((end, amount)) => Ok((end, PostingView { account, amount: Some(amount) })),
                Err(_) => Ok((amount_start, PostingView { account, amount: None })),
            }
        },
        Err(rejection) => Err(rejection),
    }
}

/// Two postings at `from`: a posting, a line ending, a posting, and a line
/// ending where there is one. They are rejected where either posting is,
/// and where the first is not followed by a line ending at once.
pub open spec fn postings_at(s: Seq<char>, from: int) -> Outcome<(PostingView, PostingView)> {
    match posting_at(s, from) {
        Ok((first_end, first)) => match line_ending_end(s, first_end) {
            Some(second_start) => match posting_at(s, second_start) {
                Ok((second_end, second)) => Ok(
                    (
                        match line_ending_end(s, second_end) {
                            Some(end) => end,
                            None => second_end,
                        },
                        (first, second),
                    ),
                ),
                Err(rejection) => Err(rejection),
            },
            None => Err(error_at(first_end, ErrorKind::CrLf)),
        },
        Err(rejection) => Err(rejection),
    }
}

/// Reads a posting that starts at the position `from` of `chars`.
pub fn parse_one_at(chars: &[char], from: usize) -> (outcome: Result<(usize, Posting), Failure>)
    requires
        from <= chars@.len(),
    ensures
        agrees(outcome, posting_at(chars@, from as int)),
        within(outcome, from as int, chars@.len() as int),
{
    match account::parse_at(chars, from) {
        Ok((account_end, account)) => {
            let amount_start = scan(chars, account_end, CharClass::Space);
            match amount::parse_at(chars, amount_start) {
                Ok((end, amount)) => Ok((end, Posting { account, amount: Some(amount) })),
                Err(_) => Ok((amount_start, Posting { account, amount: None })),
            }
        },
        Err(failure) => Err(failure),
    }
}

/// Reads two postings that start at the position `from` of `chars`.
pub fn parse_multiple_at(chars: &[char], from: usize) -> (outcome: Result<
    (usize, (Posting, Posting)),
    Failure,
>)
    requires
        from <= chars@.len(),
    ensures
        agrees(outcome, postings_at(chars@, from as int)),
        within(outcome, from as int, chars@.len() as int),
{
    let (first_end, first) = match parse_one_at(chars, from) {
        Ok(read) => read,
        Err(failure) => {
            return Err(failure);
        },
    };
    let second_start = match line_ending(chars, first_end) {
        Some(end) => end,
        None => {
            return Err(Failure::error(first_end, ErrorKind::CrLf));
        },
    };
    let (second_end, second) = match parse_one_at(chars, second_start) {
        Ok(read) => read,
        Err(failure) => {
            return Err(failure);
        },
    };
    let end = match line_ending(chars, second_end) {
        Some(end) => end,
        None => second_end,
    };
    Ok((end, (first, second)))
}

/// Reads two postings, each on a line of its own, from the start of
/// `input`, and gives back what follows them.
pub fn parse_multiple(input: &str) -> (result: Result<(&str, (Posting, Posting)), ParseError>)
    ensures
        reports(input@, result, postings_at(input@, 0)),
{
    let chars = chars_of(input);
    conclude(input, parse_multiple_at(chars.as_slice(), 0))
}

/// Reads a posting from the start of `input`, and gives back what follows
/// it.
pub fn parse_one(input: &str) -> (result: Result<(&str, Posting), ParseError>)
    ensures
        reports(input@, result, posting_at(input@, 0)),
{
    let chars = chars_of(input);
    conclude(input, parse_one_at(chars.as_slice(), 0))
}

/// A posting that is read ends behind the position it is read from.
pub proof fn lemma_posting_at(s: Seq<char>, from: int)
    requires
        0 <= from <= s.len(),
    ensures
        posting_at(s, from) matches Ok((end, _)) ==> from < end <= s.len(),
{
    if let Ok((account_end, _)) = account_at(s, from) {
        lemma_path_text_of_account(s, from);
        lemma_run_end(s, account_end, CharClass::Space);
        lemma_amount_at(s, run_end(s, account_end, CharClass::Space));
    }
}

/// What is read does not depend on what follows: a posting that is read
/// from a text is read alike from the text cut off anywhere behind it.
pub proof fn lemma_posting_in_prefix(s: Seq<char>, from: int, m: int)
    requires
        0 <= from <= m <= s.len(),
    ensures
        posting_at(s, from) matches Ok((end, _)) && end <= m ==> posting_at(s.take(m), from)
            == posting_at(s, from),
{
    if let Ok((account_end, _)) = account_at(s, from) {
        lemma_path_text_of_account(s, from);
        let amount_start = run_end(s, account_end, CharClass::Space);
        lemma_run_end(s, account_end, CharClass::Space);
        lemma_amount_at(s, amount_start);
        if amount_start <= m {
            lemma_account_in_prefix(s, from, m);
            lemma_run_end_in_prefix(s, account_end, m, CharClass::Space);
            lemma_amount_in_prefix(s, amount_start, m);
        }
    }
}

/// Two postings that are read end behind the position they are read from.
pub proof fn lemma_postings_at(s: Seq<char>, from: int)
    requires
        0 <= from <= s.len(),
    ensures
        postings_at(s, from) matches Ok((end, _)) ==> from < end <= s.len(),
{
    lemma_posting_at(s, from);
    if let Ok((first_end, _)) = posting_at(s, from) {
        if let Some(second_start) = line_ending_end(s, first_end) {
            lemma_posting_at(s, second_start);
        }
    }
}

/// What is read does not depend on what follows: two postings that are
/// read from a text are read alike from the text cut off anywhere behind
/// them.
pub proof fn lemma_postings_in_prefix(s: Seq<char>, from: int, m: int)
    requires
        0 <= from <= m <= s.len(),
    ensures
        postings_at(s, from) matches Ok((end, _)) && end <= m ==> postings_at(s.take(m), from)
            == postings_at(s, from),
{
    lemma_posting_at(s, from);
    if let Ok((first_end, _)) = posting_at(s, from) {
        if let Some(second_start) = line_ending_end(s, first_end) {
            lemma_posting_at(s, second_start);
            if let Ok((second_end, _)) = posting_at(s, second_start) {
                if second_end <= m {
                    lemma_posting_in_prefix(s, from, m);
                    lemma_line_ending_in_prefix(s, first_end, m);
                    lemma_posting_in_prefix(s, second_start, m);
                    lemma_line_ending_in_prefix(s, second_end, m);
                }
            }
        }
    }
}

} // verus!

//! The status of a transaction: a `!` marks it as pending.

use vstd::prelude::*;

use crate::parser::ast::TransactionStatus;
use crate::parser::error::{agrees, conclude, reports, within, Failure, Outcome, ParseError};
use crate::text::chars_of;

verus! {

/// The status at `from`: pending where a `!` stands there, which is
/// consumed; cleared otherwise, with nothing consumed.
pub open spec fn status_at(s: Seq<char>, from: int) -> Outcome<TransactionStatus> {
    if 0 <= from < s.len() && s[from] == '!' {
        Ok((from + 1, TransactionStatus::Pending))
    } else {
        Ok((from, TransactionStatus::Cleared))
    }
}

/// Reads the status at the position `from` of `chars`.
pub fn parse_at(chars: &[char], from: usize) -> (outcome: Result<
    (usize, TransactionStatus),
    Failure,
>)
    requires
        from <= chars@.len(),
    ensures
        agrees(outcome, status_at(chars@, from as int)),
        within(outcome, from as int, chars@.len() as int),
        outcome is Ok,
{
    if from < chars.len() && chars[from] == '!' {
        Ok((from + 1, TransactionStatus::Pending))
    } else {
        Ok((from, TransactionStatus::Cleared))
    }
}

/// Reads the status from the start of `input`, and gives back what follows
/// it.
pub fn parse(input: &str) -> (result: Result<(&str, TransactionStatus), ParseError>)
    ensures
        reports(input@, result, status_at(input@, 0)),
{
    let chars = chars_of(input);
    conclude(input, parse_at(chars.as_slice(), 0))
}

/// What is read does not depend on what follows: the status that is read
/// from a text is read alike from the text cut off anywhere behind it.
pub proof fn lemma_status_in_prefix(s: Seq<char>, from: int, m: int)
    requires
        0 <= from <= m <= s.len(),
    ensures
        status_at(s, from) matches Ok((end, _)) && end <= m ==> status_at(s.take(m), from)
            == status_at(s, from),
{
    if from < m {
        assert(s.take(m)[from] == s[from]);
    }
}

} // verus!

//! Amounts: a quantity and a currency, `-4.05 USD`.

use vstd::prelude::*;

use super::ast::{Amount, AmountView};
use super::error::{agrees, conclude, error_at, reports, within, ErrorKind, Failure, Outcome, ParseError};
use crate::decimal::{parsed_decimal, DecimalValue, Quantity};
use crate::text::{
    chars_of, lemma_run_end, lemma_run_end_in_prefix, run_end, scan, text_of, CharClass,
};

verus! {

/// Where the three parts of an amount end.
pub struct AmountTokens {
    /// The end of the quantity, which starts where the amount starts.
    pub quantity_end: int,
    /// The end of the spaces and tabs after the quantity, where the
    /// currency starts.
    pub space_end: int,
    /// The end of the currency, and of the amount.
    pub end: int,
}

/// The parts of an amount at `from`: a run of numeric characters, dots and
/// hyphens; spaces or tabs; a run of ASCII letters. None of them may be
/// empty, and the first that is decides the rejection.
pub open spec fn amount_tokens_at(s: Seq<char>, from: int) -> Result<AmountTokens, super::error::Rejection> {
    let quantity_end = run_end(s, from, CharClass::Quantity);
    let space_end = run_end(s, quantity_end, CharClass::Space);
    let end = run_end(s, space_end, CharClass::AsciiAlphabetic);
    if quantity_end == from {
        Err(error_at(from, ErrorKind::TakeWhile1))
    } else if space_end == quantity_end {
        Err(error_at(quantity_end, ErrorKind::Space))
    } else if end == space_end {
        Err(error_at(space_end, ErrorKind::Alpha))
    } else {
        Ok(AmountTokens { quantity_end, space_end, end })
    }
}

/// The amount that starts at `from` and ends at `end`, given what was made
/// of its quantity and given its currency: it is rejected where the
/// quantity is not a decimal number.
pub open spec fn amount_of(
    quantity: Option<DecimalValue>,
    currency: Seq<char>,
    from: int,
    end: int,
) -> Outcome<AmountView> {
    match quantity {
        Some(quantity) => Ok((end, AmountView { quantity, currency })),
        None => Err(error_at(from, ErrorKind::MapRes)),
    }
}

/// An amount at `from`: its three parts, with the quantity read as a
/// decimal number.
pub open spec fn amount_at(s: Seq<char>, from: int) -> Outcome<AmountView> {
    match amount_tokens_at(s, from) {
        Ok(tokens) => amount_of(
            parsed_decimal(s.subrange(from, tokens.quantity_end)),
            s.subrange(tokens.space_end, tokens.end),
            from,
            tokens.end,
        ),
        Err(rejection) => Err(rejection),
    }
}

/// Puts an amount together from what was made of its quantity and from its
/// currency.
pub fn assemble(quantity: Option<Quantity>, currency: String, from: usize, end: usize) -> (outcome:
    Result<(usize, Amount), Failure>)
    ensures
        agrees(
            outcome,
            amount_of(
                match quantity {
                    Some(q) => Some(q@),
                    None => None,
                },
                currency@,
                from as int,
                end as int,
            ),
        ),
{
    match quantity {
        Some(quantity) => Ok((end, Amount { quantity, currency })),
        None => Err(Failure::error(from, ErrorKind::MapRes)),
    }
}

/// Reads an amount that starts at the position `from` of `chars`.
pub fn parse_at(chars: &[char], from: usize) -> (outcome: Result<(usize, Amount), Failure>)
    requires
        from <= chars@.len(),
    ensures
        agrees(outcome, amount_at(chars@, from as int)),
        within(outcome, from as int, chars@.len() as int),
{
    let quantity_end = scan(chars, from, CharClass::Quantity);
    if quantity_end == from {
        return Err(Failure::error(from, ErrorKind::TakeWhile1));
    }
    let space_end = scan(chars, quantity_end, CharClass::Space);
    if space_end == quantity_end {
        return Err(Failure::error(quantity_end, ErrorKind::Space));
    }
    let end = scan(chars, space_end, CharClass::AsciiAlphabetic);
    if end == space_end {
        return Err(Failure::error(space_end, ErrorKind::Alpha));
    }
    let digits = text_of(chars, from, quantity_end);
    let quantity = Quantity::from_text(digits.as_str());
    let currency = text_of(chars, space_end, end);
    assemble(quantity, currency, from, end)
}

/// Reads an amount from the start of `input`, and gives back what follows
/// it.
pub fn parse(input: &str) -> (result: Result<(&str, Amount), ParseError>)
    ensures
        reports(input@, result, amount_at(input@, 0)),
{
    let chars = chars_of(input);
    conclude(input, parse_at(chars.as_slice(), 0))
}

/// What is read does not depend on what follows: an amount that is read
/// from a text is read alike from the text cut off anywhere behind it, and
/// where none can be read, none can from the text cut off anywhere.
pub proof fn lemma_amount_in_prefix(s: Seq<char>, from: int, m: int)
    requires
        0 <= from <= m <= s.len(),
    ensures
        amount_at(s, from) matches Ok((end, _)) && end <= m ==> amount_at(s.take(m), from)
            == amount_at(s, from),
        amount_at(s, from) is Err ==> amount_at(s.take(m), from) is Err,
{
    let t = s.take(m);
    let quantity_end = run_end(s, from, CharClass::Quantity);
    let space_end = run_end(s, quantity_end, CharClass::Space);
    let end = run_end(s, space_end, CharClass::AsciiAlphabetic);
    lemma_run_end(s, from, CharClass::Quantity);
    lemma_run_end(s, quantity_end, CharClass::Space);
    lemma_run_end(s, space_end, CharClass::AsciiAlphabetic);
    lemma_run_end_in_prefix(s, from, m, CharClass::Quantity);
    let cut_quantity_end = run_end(t, from, CharClass::Quantity);
    lemma_run_end(s, cut_quantity_end, CharClass::Space);
    lemma_run_end_in_prefix(s, cut_quantity_end, m, CharClass::Space);
    let cut_space_end = run_end(t, cut_quantity_end, CharClass::Space);
    lemma_run_end(s, cut_space_end, CharClass::AsciiAlphabetic);
    lemma_run_end_in_prefix(s, cut_space_end, m, CharClass::AsciiAlphabetic);
    if quantity_end <= m {
        assert(t.subrange(from, quantity_end) =~= s.subrange(from, quantity_end));
        if end <= m {
            assert(t.subrange(space_end, end) =~= s.subrange(space_end, end));
        }
    }
}

/// An amount that is read ends behind the position it is read from.
pub proof fn lemma_amount_at(s: Seq<char>, from: int)
    requires
        0 <= from <= s.len(),
    ensures
        amount_at(s, from) matches Ok((end, _)) ==> from < end <= s.len(),
{
    let quantity_end = run_end(s, from, CharClass::Quantity);
    let space_end = run_end(s, quantity_end, CharClass::Space);
    lemma_run_end(s, from, CharClass::Quantity);
    lemma_run_end(s, quantity_end, CharClass::Space);
    lemma_run_end(s, space_end, CharClass::AsciiAlphabetic);
}

} // verus!

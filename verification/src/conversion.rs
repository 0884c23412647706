//! Conversion of amounts between currencies.

use vstd::prelude::*;

use crate::parser::ast::{Amount, AmountView, CurrencyCode};

verus! {

/// The amount `origin` in `currency`. Every currency counts the same: the
/// quantity stays as it is.
pub open spec fn converted(currency: Seq<char>, origin: AmountView) -> AmountView {
    AmountView { quantity: origin.quantity, currency }
}

/// Transforms a given amount to the specified currency.
pub fn convert_to(currency: &CurrencyCode, origin: &Amount) -> (amount: Amount)
    ensures
        amount@ == converted(currency@, origin@),
{
    Amount { quantity: origin.quantity, currency: currency.clone() }
}

} // verus!

//! The checks on the transactions of a journal: each states a value, and
//! each is balanced.

use vstd::pervasive::unreached;
use vstd::prelude::*;

use crate::conversion::{convert_to, converted};
use crate::decimal::{difference, lemma_same_number_as_negation, DecimalValue};
use crate::journal::{CheckError, CheckErrorView, UnbalancedTransaction, UnbalancedTransactionView};
use crate::parser::ast::{
    transaction_views, AmountView, CurrencyCode, PostingView, Transaction, TransactionView,
};

verus! {

/// Whether neither posting of the transaction states an amount.
pub open spec fn without_value(transaction: TransactionView) -> bool {
    transaction.postings.0.amount is None && transaction.postings.1.amount is None
}

/// The amounts that count for the two postings of a transaction: of each
/// its own, and where it states none, that of the other posting.
pub open spec fn effective_amounts(transaction: TransactionView) -> (AmountView, AmountView) {
    let first = transaction.postings.0.amount;
    let second = transaction.postings.1.amount;
    (
        if first is Some {
            first->0
        } else {
            second->0
        },
        if second is Some {
            second->0
        } else {
            first->0
        },
    )
}

/// The quantities of the two effective amounts in the base currency.
pub open spec fn effective_quantities(transaction: TransactionView, base: Seq<char>) -> (
    DecimalValue,
    DecimalValue,
) {
    let (first, second) = effective_amounts(transaction);
    (converted(base, first).quantity, converted(base, second).quantity)
}

/// Whether the two effective amounts of a transaction are the same number
/// in the base currency.
pub open spec fn balanced(transaction: TransactionView, base: Seq<char>) -> bool {
    let (first, second) = effective_quantities(transaction, base);
    first.same_number(second)
}

/// The difference between the two effective amounts in the base currency,
/// without its sign.
pub open spec fn imbalance(transaction: TransactionView, base: Seq<char>) -> DecimalValue {
    let (first, second) = effective_quantities(transaction, base);
    difference(first, second).abs()
}

/// The transaction with its imbalance.
pub open spec fn with_imbalance(
    transaction: TransactionView,
    base: Seq<char>,
) -> UnbalancedTransactionView {
    UnbalancedTransactionView { transaction, difference: imbalance(transaction, base) }
}

/// Those of the transactions that state no amount, in their order.
pub open spec fn lacking_value(transactions: Seq<TransactionView>) -> Seq<TransactionView> {
    transactions.filter(|transaction: TransactionView| without_value(transaction))
}

/// Those of the transactions that are not balanced, in their order, each
/// with its imbalance.
pub open spec fn unbalanced_among(transactions: Seq<TransactionView>, base: Seq<char>) -> Seq<
    UnbalancedTransactionView,
> {
    transactions.filter(|transaction: TransactionView| !balanced(transaction, base)).map_values(
        |transaction: TransactionView| with_imbalance(transaction, base),
    )
}

/// What the checks make of the transactions: the first check that some
/// transaction fails decides, and its error holds every transaction that
/// fails it.
pub open spec fn check_of(transactions: Seq<TransactionView>, base: Seq<char>) -> Result<
    (),
    CheckErrorView,
> {
    if lacking_value(transactions).len() > 0 {
        Err(CheckErrorView::TransactionsWithoutValue(lacking_value(transactions)))
    } else if unbalanced_among(transactions, base).len() > 0 {
        Err(CheckErrorView::UnbalancedTransactions(unbalanced_among(transactions, base)))
    } else {
        Ok(())
    }
}

/// The views of a list of unbalanced transactions.
pub open spec fn unbalanced_views(list: Seq<UnbalancedTransaction>) -> Seq<
    UnbalancedTransactionView,
> {
    list.map_values(|unbalanced: UnbalancedTransaction| unbalanced@)
}

/// Filtering a list that got one more item filters what was there before,
/// and keeps the item if it passes.
proof fn lemma_filter_next<A>(items: Seq<A>, n: int, keep: spec_fn(A) -> bool)
    requires
        0 <= n < items.len(),
    ensures
        items.take(n + 1).filter(keep) == if keep(items[n]) {
            items.take(n).filter(keep).push(items[n])
        } else {
            items.take(n).filter(keep)
        },
{
    reveal(Seq::filter);
    assert(items.take(n + 1).drop_last() =~= items.take(n));
}

/// Checks that all the given transactions state at least one value and
/// that they are balanced. Gives the transactions back if they are, and
/// else the error of the first check that failed, with every transaction
/// that fails it.
pub fn check_transactions<'t>(transactions: &'t [Transaction], base_currency: CurrencyCode) -> (result:
    Result<&'t [Transaction], CheckError>)
    ensures
        match check_of(transaction_views(transactions@), base_currency@) {
            Ok(_) => result matches Ok(checked) && checked@ == transactions@,
            Err(error) => result matches Err(e) && e@ == error,
        },
{
    let invalid_transactions = transactions_without_value(transactions);
    if invalid_transactions.len() > 0 {
        return Err(CheckError::TransactionsWithoutValue(invalid_transactions));
    }
    proof {
        lemma_none_lacking(transaction_views(transactions@));
    }
    let unbalanced_transactions = unbalanced_transactions(transactions, &base_currency);
    if unbalanced_transactions.len() == 0 {
        Ok(transactions)
    } else {
        Err(CheckError::UnbalancedTransactions(unbalanced_transactions))
    }
}

/// Where no transaction of a list is kept as lacking a value, each states
/// one.
proof fn lemma_none_lacking(transactions: Seq<TransactionView>)
    requires
        lacking_value(transactions).len() == 0,
    ensures
        forall|i: int| 0 <= i < transactions.len() ==> !without_value(#[trigger] transactions[i]),
{
    let keep = |transaction: TransactionView| without_value(transaction);
    assert forall|i: int| 0 <= i < transactions.len() implies !without_value(
        #[trigger] transactions[i],
    ) by {
        if without_value(transactions[i]) {
            transactions.lemma_filter_contains(keep, i);
        }
    }
}

/// The transactions that state no amount on either posting, in their
/// order.
pub fn transactions_without_value(transactions: &[Transaction]) -> (found: Vec<Transaction>)
    ensures
        transaction_views(found@) == lacking_value(transaction_views(transactions@)),
{
    let ghost views = transaction_views(transactions@);
    let ghost keep = |transaction: TransactionView| without_value(transaction);
    let mut found: Vec<Transaction> = Vec::new();
    let mut i: usize = 0;
    assert(views.take(0).filter(keep) =~= Seq::<TransactionView>::empty()) by {
        reveal(Seq::filter);
    }
    assert(transaction_views(found@) =~= Seq::<TransactionView>::empty());
    while i < transactions.len()
        invariant
            i <= transactions@.len(),
            views == transaction_views(transactions@),
            keep == |transaction: TransactionView| without_value(transaction),
            transaction_views(found@) == views.take(i as int).filter(keep),
        decreases transactions@.len() - i,
    {
        let transaction = &transactions[i];
        proof {
            lemma_filter_next(views, i as int, keep);
        }
        if transaction.postings.0.amount.is_none() && transaction.postings.1.amount.is_none() {
            let ghost before = transaction_views(found@);
            found.push(transaction.clone());
            assert(transaction_views(found@) =~= before.push(transaction@));
        }
        i = i + 1;
    }
    assert(views.take(i as int) =~= views);
    found
}

/// The transactions that are not balanced, in their order, each with its
/// imbalance.
pub fn unbalanced_transactions(transactions: &[Transaction], base_currency: &CurrencyCode) -> (found:
    Vec<UnbalancedTransaction>)
    requires
        forall|i: int|
            0 <= i < transactions@.len() ==> !without_value(
                #[trigger] transaction_views(transactions@)[i],
            ),
    ensures
        unbalanced_views(found@) == unbalanced_among(
            transaction_views(transactions@),
            base_currency@,
        ),
{
    let ghost views = transaction_views(transactions@);
    let ghost base = base_currency@;
    let ghost keep = |transaction: TransactionView| !balanced(transaction, base);
    let ghost widen = |transaction: TransactionView| with_imbalance(transaction, base);
    let mut found: Vec<UnbalancedTransaction> = Vec::new();
    let mut i: usize = 0;
    assert(views.take(0).filter(keep) =~= Seq::<TransactionView>::empty()) by {
        reveal(Seq::filter);
    }
    assert(unbalanced_views(found@) =~= views.take(0).filter(keep).map_values(widen));
    while i < transactions.len()
        invariant
            i <= transactions@.len(),
            views == transaction_views(transactions@),
            base == base_currency@,
            keep == |transaction: TransactionView| !balanced(transaction, base),
            widen == |transaction: TransactionView| with_imbalance(transaction, base),
            forall|j: int| 0 <= j < views.len() ==> !without_value(#[trigger] views[j]),
            unbalanced_views(found@) == views.take(i as int).filter(keep).map_values(widen),
        decreases transactions@.len() - i,
    {
        proof {
            lemma_filter_next(views, i as int, keep);
            assert(views[i as int] == transactions@[i as int]@);
        }
        match unbalanced_transaction(&transactions[i], base_currency) {
            Some(unbalanced) => {
                let ghost before = unbalanced_views(found@);
                found.push(unbalanced);
                assert(unbalanced_views(found@) =~= before.push(unbalanced@));
                assert(views.take(i as int).filter(keep).push(views[i as int]).map_values(widen)
                    =~= views.take(i as int).filter(keep).map_values(widen).push(
                    widen(views[i as int]),
                ));
            },
            None => {},
        }
        i = i + 1;
    }
    assert(views.take(i as int) =~= views);
    found
}

/// Tells whether a transaction that states a value is balanced: nothing
/// where it is, and else the transaction with its imbalance.
pub fn unbalanced_transaction(transaction: &Transaction, base_currency: &CurrencyCode) -> (found:
    Option<UnbalancedTransaction>)
    requires
        !without_value(transaction@),
    ensures
        match found {
            Some(unbalanced) => !balanced(transaction@, base_currency@) && unbalanced@
                == with_imbalance(transaction@, base_currency@),
            None => balanced(transaction@, base_currency@),
        },
{
    let (first_amount, second_amount) = match (
        &transaction.postings.0.amount,
        &transaction.postings.1.amount,
    ) {
        (Some(first), Some(second)) => (first, second),
        (Some(first), None) => (first, first),
        (None, Some(second)) => (second, second),
        (None, None) => unreached(),
    };
    let first_amount = convert_to(base_currency, first_amount);
    let second_amount = convert_to(base_currency, second_amount);
    if first_amount.quantity == second_amount.quantity {
        None
    } else {
        let difference = first_amount.quantity.minus(&second_amount.quantity);
        Some(
            UnbalancedTransaction { transaction: transaction.clone(), difference: difference.abs() },
        )
    }
}

/// The checks pass exactly where every transaction states a value and is
/// balanced.
pub proof fn lemma_check_passes(transactions: Seq<TransactionView>, base: Seq<char>)
    ensures
        check_of(transactions, base) is Ok <==> forall|i: int|
            0 <= i < transactions.len() ==> !without_value(#[trigger] transactions[i]) && balanced(
                transactions[i],
                base,
            ),
{
    let lacking = |transaction: TransactionView| without_value(transaction);
    let uneven = |transaction: TransactionView| !balanced(transaction, base);
    if check_of(transactions, base) is Ok {
        assert forall|i: int| 0 <= i < transactions.len() implies !without_value(
            #[trigger] transactions[i],
        ) && balanced(transactions[i], base) by {
            if without_value(transactions[i]) {
                transactions.lemma_filter_contains(lacking, i);
            }
            if !balanced(transactions[i], base) {
                transactions.lemma_filter_contains(uneven, i);
            }
        }
    } else {
        let (kept, found) = if lacking_value(transactions).len() > 0 {
            (lacking, transactions.filter(lacking)[0])
        } else {
            (uneven, transactions.filter(uneven)[0])
        };
        transactions.lemma_filter_pred(kept, 0);
        assert(transactions.filter(kept).contains(found));
        transactions.lemma_filter_contains_rev(kept, found);
        let i = choose|i: int| 0 <= i < transactions.len() && transactions[i] == found;
        assert(without_value(transactions[i]) || !balanced(transactions[i], base));
    }
}

/// A transaction whose postings state amounts of opposite sign and equal
/// magnitude in one currency is balanced exactly where that magnitude is
/// zero: the two quantities are compared as they stand, and a number
/// equals its negation only if it is zero.
pub proof fn lemma_opposite_amounts(transaction: TransactionView, base: Seq<char>)
    requires
        transaction.postings.0.amount matches Some(first) && transaction.postings.1.amount matches Some(
            second,
        ) && first.currency == second.currency && second.quantity == first.quantity.negated(),
    ensures
        balanced(transaction, base) <==> transaction.postings.0.amount->0.quantity.mantissa == 0,
{
    lemma_same_number_as_negation(transaction.postings.0.amount->0.quantity);
}

/// A journal of one transaction whose postings state zero amounts of
/// opposite sign in one currency passes the checks.
pub proof fn lemma_opposite_zero_amounts_pass(transaction: TransactionView, base: Seq<char>)
    requires
        transaction.postings.0.amount matches Some(first) && transaction.postings.1.amount matches Some(
            second,
        ) && first.currency == second.currency && second.quantity == first.quantity.negated()
            && first.quantity.mantissa == 0,
    ensures
        check_of(seq![transaction], base) is Ok,
{
    lemma_opposite_amounts(transaction, base);
    lemma_check_passes(seq![transaction], base);
}

/// The transaction with the amount that one posting states written on the
/// other posting as well, where that one states none.
pub open spec fn mirrored(transaction: TransactionView) -> TransactionView {
    let (first, second) = effective_amounts(transaction);
    TransactionView {
        postings: (
            PostingView { amount: Some(first), ..transaction.postings.0 },
            PostingView { amount: Some(second), ..transaction.postings.1 },
        ),
        ..transaction
    }
}

/// A transaction of which exactly one posting states an amount is balanced
/// exactly where it would be with that amount written on both postings;
/// and so it is, since the two amounts are then one and the same. A
/// journal of that one transaction passes the checks.
pub proof fn lemma_single_amount_balances(transaction: TransactionView, base: Seq<char>)
    requires
        (transaction.postings.0.amount is Some) != (transaction.postings.1.amount is Some),
    ensures
        balanced(transaction, base) <==> balanced(mirrored(transaction), base),
        balanced(transaction, base),
        check_of(seq![transaction], base) is Ok,
{
    lemma_check_passes(seq![transaction], base);
}

} // verus!

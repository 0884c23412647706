//! The validation of a journal: reading it, and checking its transactions.

pub mod checks;

use vstd::prelude::*;

use self::checks::transactions::{check_of, check_transactions};
use crate::decimal::{DecimalValue, Quantity};
use crate::parser::ast::{
    element_views, transaction_views, CurrencyCode, JournalElement, JournalElementView,
    Transaction, TransactionView,
};
use crate::parser::{error_trace_text, journal_from, parse_journal};

verus! {

/// A transaction that is not balanced, with the difference between its
/// two postings, without its sign.
#[derive(Debug, PartialEq)]
pub struct UnbalancedTransaction {
    pub transaction: Transaction,
    pub difference: Quantity,
}

/// An unbalanced transaction, as a value.
pub struct UnbalancedTransactionView {
    pub transaction: TransactionView,
    pub difference: DecimalValue,
}

impl View for UnbalancedTransaction {
    type V = UnbalancedTransactionView;

    open spec fn view(&self) -> UnbalancedTransactionView {
        UnbalancedTransactionView { transaction: self.transaction@, difference: self.difference@ }
    }
}

/// What can be wrong with a journal.
#[derive(Debug, PartialEq)]
pub enum CheckError {
    /// The journal could not be read; the message says where and why.
    NonParsable(String),
    /// These transactions state no amount on either posting.
    TransactionsWithoutValue(Vec<Transaction>),
    /// These transactions are not balanced.
    UnbalancedTransactions(Vec<UnbalancedTransaction>),
}

/// A check error, as a value.
pub enum CheckErrorView {
    NonParsable(Seq<char>),
    TransactionsWithoutValue(Seq<TransactionView>),
    UnbalancedTransactions(Seq<UnbalancedTransactionView>),
}

impl View for CheckError {
    type V = CheckErrorView;

    open spec fn view(&self) -> CheckErrorView {
        match self {
            CheckError::NonParsable(message) => CheckErrorView::NonParsable(message@),
            CheckError::TransactionsWithoutValue(transactions) => {
                CheckErrorView::TransactionsWithoutValue(transaction_views(transactions@))
            },
            CheckError::UnbalancedTransactions(transactions) => {
                CheckErrorView::UnbalancedTransactions(
                    transactions@.map_values(|unbalanced: UnbalancedTransaction| unbalanced@),
                )
            },
        }
    }
}

/// The transactions among the elements of a journal, in their order.
pub open spec fn transactions_of(elements: Seq<JournalElementView>) -> Seq<TransactionView>
    decreases elements.len(),
{
    if elements.len() == 0 {
        Seq::empty()
    } else {
        match elements.last() {
            JournalElementView::Transaction(transaction) => transactions_of(
                elements.drop_last(),
            ).push(transaction),
            _ => transactions_of(elements.drop_last()),
        }
    }
}

/// The currency in which a journal is validated.
pub open spec fn base_currency() -> Seq<char> {
    seq!['E', 'U', 'R']
}

/// What the validation makes of a journal that was read, or of the message
/// of the failure to read it: a journal that could not be read is reported
/// as such, and the transactions of one that could are checked.
pub open spec fn validation_of(
    parsed: Result<Seq<JournalElementView>, Seq<char>>,
    base: Seq<char>,
) -> Result<(), CheckErrorView> {
    match parsed {
        Ok(elements) => check_of(transactions_of(elements), base),
        Err(message) => Err(CheckErrorView::NonParsable(message)),
    }
}

/// Whether a result of the validation is what was to come out.
pub open spec fn validated(result: Result<(), CheckError>, expected: Result<(), CheckErrorView>) -> bool {
    match expected {
        Ok(_) => result is Ok,
        Err(error) => result matches Err(e) && e@ == error,
    }
}

/// Validates a journal: reads it, and checks its transactions in EUR.
/// Gives nothing if it is in order, and else the `CheckError` that says
/// what is wrong.
pub fn validate(content: &str) -> (result: Result<(), CheckError>)
    ensures
        validated(
            result,
            validation_of(
                match journal_from(content@, 0) {
                    Ok(elements) => Ok(elements),
                    Err(trace) => Err(error_trace_text(content@, trace)),
                },
                base_currency(),
            ),
        ),
{
    let base = "EUR".to_owned();
    proof {
        reveal_strlit("EUR");
        assert(base@ =~= base_currency());
    }
    validate_parsed(parse_journal(content), base)
}

/// Validates a journal that has been read, or reports that it could not
/// be.
pub fn validate_parsed(parsed: Result<Vec<JournalElement>, String>, base_currency: CurrencyCode) -> (result:
    Result<(), CheckError>)
    ensures
        validated(
            result,
            validation_of(
                match parsed {
                    Ok(elements) => Ok(element_views(elements@)),
                    Err(message) => Err(message@),
                },
                base_currency@,
            ),
        ),
{
    match parsed {
        Ok(journal) => {
            let transactions = get_transactions(journal);
            match check_transactions(transactions.as_slice(), base_currency) {
                Ok(_) => Ok(()),
                Err(error) => Err(error),
            }
        },
        Err(message) => Err(CheckError::NonParsable(message)),
    }
}

/// The transactions among the elements of a journal, in their order.
pub fn get_transactions(journal: Vec<JournalElement>) -> (transactions: Vec<Transaction>)
    ensures
        transaction_views(transactions@) == transactions_of(element_views(journal@)),
{
    let ghost elements = element_views(journal@);
    let mut transactions: Vec<Transaction> = Vec::new();
    assert(transaction_views(transactions@) =~= transactions_of(elements.take(0)));
    for element in it: journal.into_iter()
        invariant
            it.seq() == journal@,
            elements == element_views(journal@),
            transaction_views(transactions@) == transactions_of(elements.take(it.index() as int)),
    {
        let ghost n = it.index() as int;
        assert(elements.take(n + 1).drop_last() =~= elements.take(n));
        assert(elements.take(n + 1).last() == element@);
        match element {
            JournalElement::Transaction(transaction) => {
                let ghost before = transaction_views(transactions@);
                transactions.push(transaction);
                assert(transaction_views(transactions@) =~= before.push(transaction@));
            },
            _ => {},
        }
    }
    assert(elements.take(journal@.len() as int) =~= elements);
    transactions
}

} // verus!

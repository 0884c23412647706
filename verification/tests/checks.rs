use pledger::conversion::convert_to;
use pledger::decimal::Quantity;
use pledger::journal::checks::transactions::{
    check_transactions, transactions_without_value, unbalanced_transaction,
    unbalanced_transactions,
};
use pledger::journal::{
    get_transactions, validate, validate_parsed, CheckError, UnbalancedTransaction,
};
use pledger::parser::ast::{
    Account, Amount, CalendarDate, CurrencyCode, JournalElement, ParsedDate, Posting, Transaction,
};

fn dec(mantissa: i128, scale: u32) -> Quantity {
    Quantity::new(mantissa, scale).unwrap()
}

fn fixed(postings: (Posting, Posting)) -> Transaction {
    Transaction {
        date: ParsedDate::Full(CalendarDate {
            year: 2021,
            month: 10,
            day: 8,
        }),
        postings,
        ..Transaction::default()
    }
}

fn posting(quantity: Option<Quantity>, currency: &str) -> Posting {
    Posting {
        account: Account::default(),
        amount: quantity.map(|quantity| Amount {
            quantity,
            currency: currency.to_owned(),
        }),
    }
}

fn balanced_transaction(quantity: Quantity) -> Transaction {
    Transaction {
        postings: (
            Posting {
                account: Account::default(),
                amount: Some(Amount {
                    quantity,
                    currency: "EUR".to_owned(),
                }),
            },
            Posting::default(),
        ),
        ..Transaction::default()
    }
}

fn unbalanced_transaction_of(quantity: Quantity, more: Quantity) -> Transaction {
    Transaction {
        postings: (
            Posting {
                account: Account::default(),
                amount: Some(Amount {
                    quantity,
                    currency: "EUR".to_owned(),
                }),
            },
            Posting {
                account: Account::default(),
                amount: Some(Amount {
                    quantity: more,
                    currency: "EUR".to_owned(),
                }),
            },
        ),
        ..Transaction::default()
    }
}

fn different_currencies_transaction(
    quantity: Quantity,
    first_currency: CurrencyCode,
    second_currency: CurrencyCode,
) -> Transaction {
    Transaction {
        postings: (
            Posting {
                account: Account::default(),
                amount: Some(Amount {
                    quantity,
                    currency: first_currency,
                }),
            },
            Posting {
                account: Account::default(),
                amount: Some(Amount {
                    quantity: quantity,
                    currency: second_currency,
                }),
            },
        ),
        ..Transaction::default()
    }
}

fn transaction_without_value() -> Transaction {
    Transaction {
        postings: (
            Posting {
                account: Account::default(),
                amount: None,
            },
            Posting::default(),
        ),
        ..Transaction::default()
    }
}

#[test]
fn check_transactions_should_pass_if_transactions_are_valid_and_balanced() {
    let valid_transactions = vec![
        balanced_transaction(dec(100, 1)),
        balanced_transaction(dec(200, 1)),
    ];

    assert_eq!(
        check_transactions(&valid_transactions, "CZK".to_owned()),
        Ok(valid_transactions.as_slice())
    )
}

#[test]
fn check_transactions_should_pass_with_valid_and_balanced_transactions_in_different_currencies() {
    let valid_transactions = vec![
        different_currencies_transaction(dec(100, 1), "EUR".to_owned(), "CZK".to_owned()),
        different_currencies_transaction(dec(100, 1), "CZK".to_owned(), "EUR".to_owned()),
    ];

    assert_eq!(
        check_transactions(&valid_transactions, "CZK".to_owned()),
        Ok(valid_transactions.as_slice())
    )
}

#[test]
fn check_transactions_should_fail_with_transactions_without_value_if_none_of_the_postings_contains_an_amount() {
    let invalid_transactions = vec![
        balanced_transaction(dec(100, 1)),
        transaction_without_value(),
        balanced_transaction(dec(200, 1)),
        transaction_without_value(),
    ];

    assert_eq!(
        check_transactions(&invalid_transactions, "CZK".to_owned()),
        Err(CheckError::TransactionsWithoutValue(vec![
            transaction_without_value(),
            transaction_without_value()
        ]))
    )
}

#[test]
fn check_transactions_should_fail_with_unbalanced_transactions() {
    let unbalanced_transactions = vec![
        balanced_transaction(dec(100, 1)),
        unbalanced_transaction_of(dec(100, 1), dec(200, 1)),
        balanced_transaction(dec(200, 1)),
        unbalanced_transaction_of(dec(1000, 1), dec(1100, 1)),
    ];

    assert_eq!(
        check_transactions(&unbalanced_transactions, "CZK".to_owned()),
        Err(CheckError::UnbalancedTransactions(vec![
            UnbalancedTransaction {
                transaction: unbalanced_transaction_of(dec(100, 1), dec(200, 1)),
                difference: dec(100, 1)
            },
            UnbalancedTransaction {
                transaction: unbalanced_transaction_of(dec(1000, 1), dec(1100, 1)),
                difference: dec(100, 1)
            },
        ]))
    )
}

#[test]
fn check_reports_missing_values_before_imbalance() {
    let transactions = vec![
        fixed((posting(Some(dec(1, 0)), "EUR"), posting(Some(dec(2, 0)), "EUR"))),
        fixed((posting(None, ""), posting(None, ""))),
    ];
    assert_eq!(
        check_transactions(&transactions, "EUR".to_owned()),
        Err(CheckError::TransactionsWithoutValue(vec![fixed((
            posting(None, ""),
            posting(None, "")
        ))]))
    );
    assert_eq!(check_transactions(&[], "EUR".to_owned()), Ok(&[][..]));
}

#[test]
fn lists_keep_the_order_of_the_journal() {
    let with = fixed((posting(Some(dec(1, 0)), "EUR"), posting(None, "")));
    let mut first = fixed((posting(None, ""), posting(None, "")));
    first.payee = "first".to_owned();
    let mut second = fixed((posting(None, ""), posting(None, "")));
    second.payee = "second".to_owned();
    let transactions = vec![first.clone(), with.clone(), second.clone()];
    assert_eq!(transactions_without_value(&transactions), vec![first, second]);
    assert_eq!(transactions_without_value(&[with]), Vec::new());

    let three = fixed((posting(Some(dec(5, 0)), "EUR"), posting(Some(dec(2, 0)), "EUR")));
    let even = fixed((posting(Some(dec(5, 0)), "EUR"), posting(Some(dec(50, 1)), "EUR")));
    let one = fixed((posting(Some(dec(-15, 1)), "EUR"), posting(Some(dec(-25, 1)), "EUR")));
    assert_eq!(
        unbalanced_transactions(&[three.clone(), even, one.clone()], &"EUR".to_owned()),
        vec![
            UnbalancedTransaction {
                transaction: three,
                difference: dec(3, 0)
            },
            UnbalancedTransaction {
                transaction: one,
                difference: dec(10, 1)
            }
        ]
    );
}

#[test]
fn single_amount_is_mirrored_onto_the_other_posting() {
    let base = "USD".to_owned();
    let first = fixed((posting(Some(dec(405, 2)), "USD"), posting(None, "")));
    let second = fixed((posting(None, ""), posting(Some(dec(-7, 0)), "CZK")));
    assert_eq!(unbalanced_transaction(&first, &base), None);
    assert_eq!(unbalanced_transaction(&second, &base), None);
    assert_eq!(check_transactions(&[first, second], base).map(|_| ()), Ok(()));
}

#[test]
fn amounts_balance_where_they_are_the_same_number() {
    let base = "EUR".to_owned();
    let same = fixed((posting(Some(dec(10, 0)), "EUR"), posting(Some(dec(1000, 2)), "EUR")));
    assert_eq!(unbalanced_transaction(&same, &base), None);
    let zero = fixed((posting(Some(dec(0, 0)), "EUR"), posting(Some(dec(0, 2)), "EUR")));
    assert_eq!(unbalanced_transaction(&zero, &base), None);
    let opposite = fixed((posting(Some(dec(405, 2)), "USD"), posting(Some(dec(-405, 2)), "USD")));
    assert_eq!(
        unbalanced_transaction(&opposite, &base),
        Some(UnbalancedTransaction {
            transaction: opposite.clone(),
            difference: dec(810, 2)
        })
    );
}

#[test]
fn conversion_keeps_the_quantity_and_sets_the_currency() {
    let amount = Amount {
        quantity: dec(405, 2),
        currency: "USD".to_owned(),
    };
    assert_eq!(
        convert_to(&"EUR".to_owned(), &amount),
        Amount {
            quantity: dec(405, 2),
            currency: "EUR".to_owned()
        }
    );
}

#[test]
fn validates_a_journal_with_one_amount() {
    assert_eq!(
        validate("2021-10-08 Coffee\ncash 4.05 USD\nexpenses:food\n"),
        Ok(())
    );
    assert_eq!(validate(""), Ok(()));
    assert_eq!(validate("// only a comment\ny2021\naccount cash\n"), Ok(()));
}

#[test]
fn validate_fails_with_unbalanced_transactions() {
    match validate("2021-10-08 Shop\ncash 10 EUR\nexpenses 20 EUR\n") {
        Err(CheckError::UnbalancedTransactions(list)) => {
            assert_eq!(list.len(), 1);
            assert_eq!(list[0].difference, dec(10, 0));
            assert_eq!(list[0].transaction.payee, "Shop");
        }
        other => panic!("unexpected {:?}", other),
    }
}

#[test]
fn validate_fails_with_transactions_without_value() {
    match validate("2021-10-08 Shop\ncash\nexpenses\n2021-10-09 Bar\ncash 1 EUR\nexpenses 2 EUR\n") {
        Err(CheckError::TransactionsWithoutValue(list)) => {
            assert_eq!(list.len(), 1);
            assert_eq!(list[0].payee, "Shop");
            assert_eq!(list[0].postings.0.account.name, "cash");
            assert_eq!(list[0].postings.1.account.name, "expenses");
        }
        other => panic!("unexpected {:?}", other),
    }
}

#[test]
fn validate_reports_a_journal_that_cannot_be_read() {
    assert_eq!(
        validate("accounttest"),
        Err(CheckError::NonParsable(
            "0: at line 1, in ManyTill:\naccounttest\n^\n\n".to_owned()
        ))
    );
    assert_eq!(
        validate("2021-10-08\ncash\nexpenses\n"),
        Err(CheckError::NonParsable(
            "0: at line 1, in ManyTill:\n2021-10-08\n^\n\n".to_owned()
        ))
    );
}

#[test]
fn validate_parsed_checks_the_transactions_of_the_journal() {
    assert_eq!(
        validate_parsed(Err("no journal".to_owned()), "EUR".to_owned()),
        Err(CheckError::NonParsable("no journal".to_owned()))
    );
    let lacking = fixed((posting(None, ""), posting(None, "")));
    let journal = vec![
        JournalElement::Comment,
        JournalElement::Transaction(lacking.clone()),
        JournalElement::Year(2021),
    ];
    assert_eq!(
        validate_parsed(Ok(journal), "EUR".to_owned()),
        Err(CheckError::TransactionsWithoutValue(vec![lacking]))
    );
    assert_eq!(
        validate_parsed(Ok(vec![JournalElement::Empty]), "EUR".to_owned()),
        Ok(())
    );
}

#[test]
fn get_transactions_keeps_the_transactions_in_their_order() {
    let mut first = fixed((posting(None, ""), posting(None, "")));
    first.payee = "first".to_owned();
    let mut second = fixed((posting(None, ""), posting(None, "")));
    second.payee = "second".to_owned();
    let journal = vec![
        JournalElement::Year(2021),
        JournalElement::Transaction(first.clone()),
        JournalElement::Empty,
        JournalElement::Account(Account::default()),
        JournalElement::Transaction(second.clone()),
        JournalElement::Comment,
    ];
    assert_eq!(get_transactions(journal), vec![first, second]);
    assert_eq!(get_transactions(Vec::new()), Vec::new());
}

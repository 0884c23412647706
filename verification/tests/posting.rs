use pledger::decimal::Quantity;
use pledger::parser::ast::{Account, Amount, Posting};
use pledger::parser::error::{ErrorKind, ParseError, Severity};
use pledger::parser::transactions::posting::{parse_multiple, parse_one};

fn error(input: &str, code: ErrorKind) -> ParseError<'_> {
    ParseError {
        severity: Severity::Error,
        input,
        code,
    }
}

fn get_test_data() -> (Account, Account, Amount) {
    let sender_account = Account {
        name: "test".to_owned(),
        children: vec!["sender".to_owned()],
    };
    let receiver_account = Account {
        name: "test".to_owned(),
        children: vec!["receiver".to_owned()],
    };
    let amount = Amount {
        quantity: Quantity::new(405, 2).unwrap(),
        currency: "USD".to_owned(),
    };

    (sender_account, receiver_account, amount)
}

#[test]
fn parses_valid_posting() {
    let (_, receiver_account, amount) = get_test_data();
    assert_eq!(
        parse_one("test:receiver 4.05 USD"),
        Ok((
            "",
            Posting {
                account: receiver_account,
                amount: Some(amount)
            }
        ))
    )
}

#[test]
fn parses_valid_postings() {
    let (sender_account, receiver_account, amount) = get_test_data();
    assert_eq!(
        parse_multiple("test:receiver 4.05 USD\ntest:sender -4.05 USD\n"),
        Ok((
            "",
            (
                Posting {
                    account: receiver_account,
                    amount: Some(amount)
                },
                Posting {
                    account: sender_account,
                    amount: Some(Amount {
                        quantity: Quantity::new(-405, 2).unwrap(),
                        currency: "USD".to_owned()
                    })
                }
            )
        ))
    )
}

#[test]
fn parses_valid_postings_without_amount_in_second_posting() {
    let (sender_account, receiver_account, amount) = get_test_data();
    assert_eq!(
        parse_multiple("test:receiver 4.05 USD\ntest:sender\n"),
        Ok((
            "",
            (
                Posting {
                    account: receiver_account,
                    amount: Some(amount)
                },
                Posting {
                    account: sender_account,
                    amount: None
                }
            )
        ))
    )
}

#[test]
fn parses_valid_postings_without_line_ending_in_second_posting() {
    let (sender_account, receiver_account, amount) = get_test_data();
    assert_eq!(
        parse_multiple("test:receiver 4.05 USD\ntest:sender"),
        Ok((
            "",
            (
                Posting {
                    account: receiver_account,
                    amount: Some(amount)
                },
                Posting {
                    account: sender_account,
                    amount: None
                }
            )
        ))
    )
}

#[test]
fn errors_if_posting_begins_with_space() {
    assert_eq!(
        parse_one(" test:receiver 4.05 USD"),
        Err(error(" test:receiver 4.05 USD", ErrorKind::AlphaNumeric))
    )
}

#[test]
fn errors_if_posting_is_not_separated_by_new_lines() {
    assert_eq!(
        parse_multiple("test:receiver 4.05 USD test:sender"),
        Err(error(" test:sender", ErrorKind::CrLf))
    )
}

#[test]
fn errors_if_posting_is_separated_by_more_than_one_new_line() {
    assert_eq!(
        parse_multiple("test:receiver 4.05 USD\n\ntest:sender"),
        Err(error("\ntest:sender", ErrorKind::AlphaNumeric))
    )
}

#[test]
fn errors_if_postings_have_spaces_in_between() {
    assert_eq!(
        parse_multiple("test:receiver 4.05 USD\n test:sender"),
        Err(error(" test:sender", ErrorKind::AlphaNumeric))
    );

    assert_eq!(
        parse_multiple("test:receiver 4.05 USD \ntest:sender"),
        Err(error(" \ntest:sender", ErrorKind::CrLf))
    )
}

#[test]
fn posting_without_amount_ends_after_the_spaces() {
    let (sender_account, _, _) = get_test_data();
    assert_eq!(
        parse_one("test:sender  \t\nnext"),
        Ok((
            "\nnext",
            Posting {
                account: sender_account,
                amount: None
            }
        ))
    );
}

#[test]
fn posting_with_a_malformed_amount_has_none() {
    let (sender_account, _, _) = get_test_data();
    assert_eq!(
        parse_one("test:sender 1.2.3 USD"),
        Ok((
            "1.2.3 USD",
            Posting {
                account: sender_account,
                amount: None
            }
        ))
    );
}

#[test]
fn postings_take_windows_line_endings() {
    let (sender_account, receiver_account, amount) = get_test_data();
    assert_eq!(
        parse_multiple("test:receiver 4.05 USD\r\ntest:sender\r\nrest"),
        Ok((
            "rest",
            (
                Posting {
                    account: receiver_account,
                    amount: Some(amount)
                },
                Posting {
                    account: sender_account,
                    amount: None
                }
            )
        ))
    );
}

#[test]
fn posting_clone_and_default_keep_the_fields() {
    let (sender_account, _, amount) = get_test_data();
    let posting = Posting {
        account: sender_account,
        amount: Some(amount),
    };
    assert_eq!(posting.clone(), posting);
    assert_eq!(
        Posting::default(),
        Posting {
            account: Account::default(),
            amount: None
        }
    );
}

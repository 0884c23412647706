use pledger::decimal::Quantity;
use pledger::parser::ast::{
    Account, Amount, CalendarDate, JournalElement, ParsedDate, Posting, Transaction,
    TransactionStatus,
};
use pledger::parser::error::{ErrorKind, Failure, ParseError, Severity};
use pledger::parser::transactions;
use pledger::parser::{
    parse_declaration_at, parse_element_at, parse_elements, parse_journal, TraceEntry, TraceLabel,
};

fn account(name: &str, children: &[&str]) -> Account {
    Account {
        name: name.to_owned(),
        children: children.iter().map(|child| child.to_string()).collect(),
    }
}

fn coffee() -> Transaction {
    Transaction {
        date: ParsedDate::Full(CalendarDate {
            year: 2021,
            month: 10,
            day: 8,
        }),
        status: TransactionStatus::Cleared,
        description: "".to_owned(),
        tags: Vec::new(),
        payee: "Coffee".to_owned(),
        postings: (
            Posting {
                account: account("cash", &[]),
                amount: Some(Amount {
                    quantity: Quantity::new(405, 2).unwrap(),
                    currency: "USD".to_owned(),
                }),
            },
            Posting {
                account: account("expenses", &["food"]),
                amount: None,
            },
        ),
    }
}

#[test]
fn parses_valid_account_declaration() {
    assert_eq!(
        parse_journal("account test:test2"),
        Ok(vec![JournalElement::Account(Account {
            name: "test".to_string(),
            children: vec!["test2".to_owned()]
        })])
    )
}

#[test]
fn fails_if_account_does_not_contain_space() {
    assert_eq!(
        parse_journal("accounttest"),
        Err("0: at line 1, in ManyTill:\naccounttest\n^\n\n".to_owned())
    )
}

#[test]
fn fails_if_does_not_contain_account_name() {
    assert_eq!(
        parse_journal("account"),
        Err("0: at line 1, in ManyTill:\naccount\n^\n\n".to_owned())
    )
}

#[test]
fn parses_a_transaction_with_one_amount() {
    assert_eq!(
        parse_journal("2021-10-08 Coffee\ncash 4.05 USD\nexpenses:food\n"),
        Ok(vec![JournalElement::Transaction(coffee())])
    );
}

#[test]
fn parses_a_year_directive() {
    assert_eq!(
        parse_journal("y2022\n"),
        Ok(vec![JournalElement::Year(2022), JournalElement::Empty])
    );
    assert_eq!(parse_journal("Y2022"), Ok(vec![JournalElement::Year(2022)]));
}

#[test]
fn parses_a_comment() {
    assert_eq!(
        parse_journal("// just a comment\n"),
        Ok(vec![JournalElement::Comment])
    );
}

#[test]
fn parses_an_empty_journal() {
    assert_eq!(parse_journal(""), Ok(Vec::new()));
    assert_eq!(parse_journal(" \n\t\r\n"), Ok(vec![JournalElement::Empty]));
}

#[test]
fn parses_elements_in_their_order() {
    let content = "// my journal\ny2021\n\naccount expenses:food\n\n2021-10-08 Coffee\ncash 4.05 USD\nexpenses:food\n";
    assert_eq!(
        parse_journal(content),
        Ok(vec![
            JournalElement::Comment,
            JournalElement::Year(2021),
            JournalElement::Account(account("expenses", &["food"])),
            JournalElement::Transaction(coffee()),
        ])
    );
}

#[test]
fn fails_where_the_date_line_has_no_payee_before_the_postings() {
    let content = "2021-10-08\ncash 10 EUR\nexpenses 20 EUR\n";
    assert_eq!(
        parse_elements(content),
        Err(vec![TraceEntry {
            offset: 0,
            label: TraceLabel::ManyTill
        }])
    );
    assert_eq!(
        parse_journal(content),
        Err("0: at line 1, in ManyTill:\n2021-10-08\n^\n\n".to_owned())
    );
}

#[test]
fn fails_with_the_trace_of_a_malformed_year() {
    assert_eq!(
        parse_elements("// c\n  yx"),
        Err(vec![
            TraceEntry {
                offset: 8,
                label: TraceLabel::Digit
            },
            TraceEntry {
                offset: 7,
                label: TraceLabel::Context("journal year")
            }
        ])
    );
    assert_eq!(
        parse_journal("// c\n  yx"),
        Err("0: at line 2, in Digit:\n  yx\n   ^\n\n1: at line 2, in journal year:\n  yx\n  ^\n\n".to_owned())
    );
    assert_eq!(
        parse_elements("y99999999999"),
        Err(vec![
            TraceEntry {
                offset: 1,
                label: TraceLabel::MapRes
            },
            TraceEntry {
                offset: 0,
                label: TraceLabel::Context("journal year")
            }
        ])
    );
    assert_eq!(
        parse_journal("y99999999999"),
        Err("0: at line 1, in MapRes:\ny99999999999\n ^\n\n1: at line 1, in journal year:\ny99999999999\n^\n\n".to_owned())
    );
}

#[test]
fn fails_at_the_position_where_the_journal_stalls() {
    assert_eq!(
        parse_elements("y2021\n\u{e9}t\u{e9} ???"),
        Err(vec![TraceEntry {
            offset: 6,
            label: TraceLabel::ManyTill
        }])
    );
    assert_eq!(
        parse_journal("y2021\n\u{e9}t\u{e9} ???"),
        Err("0: at line 2, in ManyTill:\n\u{e9}t\u{e9} ???\n^\n\n".to_owned())
    );
    assert_eq!(
        parse_journal("y2021\n  ???"),
        Err("0: at line 2, in ManyTill:\n  ???\n  ^\n\n".to_owned())
    );
}

#[test]
fn element_is_the_first_alternative_that_matches() {
    let chars: Vec<char> = "xx account a:b\n".chars().collect();
    assert_eq!(
        parse_element_at(&chars, 3),
        Ok((14, JournalElement::Account(account("a", &["b"]))))
    );
    assert_eq!(parse_element_at(&chars, 14), Ok((15, JournalElement::Empty)));
    assert_eq!(parse_element_at(&chars, 0), Ok((0, JournalElement::Empty)));
    assert_eq!(
        parse_declaration_at(&chars, 3),
        Ok((14, account("a", &["b"])))
    );
    assert_eq!(
        parse_declaration_at(&chars, 0),
        Err(Failure {
            severity: Severity::Error,
            at: 0,
            code: ErrorKind::Tag
        })
    );
    let missing: Vec<char> = "account\n".chars().collect();
    assert_eq!(
        parse_declaration_at(&missing, 0),
        Err(Failure {
            severity: Severity::Error,
            at: 7,
            code: ErrorKind::Space
        })
    );
}

#[test]
fn parses_a_transaction_with_status_description_and_tags() {
    let spaced = "10/08 ! Shop | Weekly food ;food,home-2021\nbank:main -12.5 EUR\nexpenses:food 12.5 EUR\nrest";
    let input = "10/08! Shop | Weekly food ;food,home-2021\nbank:main -12.5 EUR\nexpenses:food 12.5 EUR\nrest";
    let expected = Transaction {
        date: ParsedDate::Partial(CalendarDate {
            year: 2021,
            month: 10,
            day: 8,
        }),
        status: TransactionStatus::Cleared,
        description: "".to_owned(),
        tags: Vec::new(),
        payee: "".to_owned(),
        postings: (Posting::default(), Posting::default()),
    };
    let expected = Transaction {
        status: TransactionStatus::Pending,
        description: "Weekly food".to_owned(),
        tags: vec!["food".to_owned(), "home-2021".to_owned()],
        payee: "Shop".to_owned(),
        postings: (
            Posting {
                account: account("bank", &["main"]),
                amount: Some(Amount {
                    quantity: Quantity::new(-125, 1).unwrap(),
                    currency: "EUR".to_owned(),
                }),
            },
            Posting {
                account: account("expenses", &["food"]),
                amount: Some(Amount {
                    quantity: Quantity::new(125, 1).unwrap(),
                    currency: "EUR".to_owned(),
                }),
            },
        ),
        ..expected
    };
    assert_eq!(transactions::parse(input), Ok(("rest", expected.clone())));
    assert_eq!(transactions::parse(spaced), Ok(("rest", expected)));
}

#[test]
fn transaction_fails_at_the_part_that_does_not_match() {
    assert_eq!(
        transactions::parse("Coffee\ncash\nbank\n"),
        Err(ParseError {
            severity: Severity::Error,
            input: "Coffee\ncash\nbank\n",
            code: ErrorKind::TakeWhile1
        })
    );
    assert_eq!(
        transactions::parse("2021-10-08 Coffee #1\ncash\nbank\n"),
        Err(ParseError {
            severity: Severity::Error,
            input: "#1\ncash\nbank\n",
            code: ErrorKind::CrLf
        })
    );
    assert_eq!(
        transactions::parse("2021-10-08 Coffee\ncash\n"),
        Err(ParseError {
            severity: Severity::Error,
            input: "",
            code: ErrorKind::AlphaNumeric
        })
    );
    assert_eq!(
        transactions::parse("2021-10-08 Coffee\ncash 1 EUR bank\n"),
        Err(ParseError {
            severity: Severity::Error,
            input: " bank\n",
            code: ErrorKind::CrLf
        })
    );
}

#[test]
fn transaction_clone_keeps_the_fields() {
    let transaction = coffee();
    assert_eq!(transaction.clone(), transaction);
    let element = JournalElement::Transaction(coffee());
    assert_eq!(element.clone(), element);
    let fresh = Transaction::default();
    assert_eq!(fresh.status, TransactionStatus::Cleared);
    assert_eq!(fresh.payee, "");
    assert_eq!(fresh.description, "");
    assert!(fresh.tags.is_empty());
    assert_eq!(fresh.postings, (Posting::default(), Posting::default()));
}

#[test]
fn elements_written_down_are_read_back() {
    let declared = account("assets", &["savings", "2021"]);
    assert_eq!(
        parse_journal("account assets:savings:2021"),
        Ok(vec![JournalElement::Account(declared)])
    );
    assert_eq!(parse_journal("//\n"), Ok(vec![JournalElement::Comment]));
    assert_eq!(parse_journal("y2021"), Ok(vec![JournalElement::Year(2021)]));
    let chars: Vec<char> = Vec::new();
    assert_eq!(parse_element_at(&chars, 0), Ok((0, JournalElement::Empty)));
}

#[test]
fn what_was_consumed_is_read_alike_alone() {
    let input = "10/08! Shop | Weekly food ;food,home-2021\nbank:main -12.5 EUR\nexpenses:food\n// next\n";
    let (rest, transaction) = transactions::parse(input).unwrap();
    assert_eq!(rest, "// next\n");
    let consumed = &input[..input.len() - rest.len()];
    assert_eq!(transactions::parse(consumed), Ok(("", transaction)));

    let chars: Vec<char> = "account a:b:\ny2021 x".chars().collect();
    let (end, element) = parse_element_at(&chars, 0).unwrap();
    assert_eq!(end, 12);
    assert_eq!(parse_element_at(&chars[..end], 0), Ok((end, element)));
    let (end, element) = parse_element_at(&chars, 13).unwrap();
    assert_eq!((end, element.clone()), (18, JournalElement::Year(2021)));
    assert_eq!(parse_element_at(&chars[..end], 13), Ok((end, element)));
}

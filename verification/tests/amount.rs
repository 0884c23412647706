use pledger::decimal::Quantity;
use pledger::parser::amount::{assemble, parse};
use pledger::parser::ast::Amount;
use pledger::parser::error::{ErrorKind, Failure, ParseError, Severity};

fn dec(mantissa: i128, scale: u32) -> Quantity {
    Quantity::new(mantissa, scale).unwrap()
}

fn error(input: &str, code: ErrorKind) -> ParseError<'_> {
    ParseError {
        severity: Severity::Error,
        input,
        code,
    }
}

#[test]
fn parses_integer_amount() {
    assert_eq!(
        parse("4 USD"),
        Ok((
            "",
            Amount {
                quantity: dec(4, 0),
                currency: "USD".to_owned()
            }
        ))
    )
}

#[test]
fn parses_decimal_amount() {
    assert_eq!(
        parse("4.05 USD"),
        Ok((
            "",
            Amount {
                quantity: dec(405, 2),
                currency: "USD".to_owned()
            }
        ))
    )
}

#[test]
fn parses_negative_integer_amount() {
    assert_eq!(
        parse("-4 USD"),
        Ok((
            "",
            Amount {
                quantity: dec(-4, 0),
                currency: "USD".to_owned()
            }
        ))
    )
}

#[test]
fn parses_negative_decimal_amount() {
    assert_eq!(
        parse("-4.05 USD"),
        Ok((
            "",
            Amount {
                quantity: dec(-405, 2),
                currency: "USD".to_owned()
            }
        ))
    )
}

#[test]
fn parses_any_currency() {
    assert_eq!(
        parse("200 A"),
        Ok((
            "",
            Amount {
                quantity: dec(200, 0),
                currency: "A".to_owned()
            }
        ))
    );

    assert_eq!(
        parse("40 APPL"),
        Ok((
            "",
            Amount {
                quantity: dec(40, 0),
                currency: "APPL".to_owned()
            }
        ))
    );
}

#[test]
fn fails_when_quantity_includes_unexpected_characters() {
    assert_eq!(parse("4,04 USD"), Err(error(",04 USD", ErrorKind::Space)))
}

#[test]
fn fails_when_input_starts_with_character() {
    assert_eq!(
        parse("b4.04 USD"),
        Err(error("b4.04 USD", ErrorKind::TakeWhile1))
    )
}

#[test]
fn fails_when_currency_is_missing() {
    assert_eq!(parse("4.04"), Err(error("", ErrorKind::Space)));

    assert_eq!(parse("4.04 "), Err(error("", ErrorKind::Alpha)))
}

#[test]
fn fails_when_quantity_is_malformed() {
    assert_eq!(parse("1.2.3 USD"), Err(error("1.2.3 USD", ErrorKind::MapRes)));
    assert_eq!(parse("4-5 USD"), Err(error("4-5 USD", ErrorKind::MapRes)));
    assert_eq!(parse("- USD"), Err(error("- USD", ErrorKind::MapRes)));
}

#[test]
fn amount_keeps_the_precision_that_was_written() {
    let (rest, amount) = parse("10.00 EUR rest").unwrap();
    assert_eq!(rest, " rest");
    assert_eq!(amount.quantity.mantissa(), 1000);
    assert_eq!(amount.quantity.scale(), 2);
    assert_eq!(amount.currency, "EUR");
}

#[test]
fn amount_takes_tabs_between_quantity_and_currency() {
    assert_eq!(
        parse("7\t \tCZK"),
        Ok((
            "",
            Amount {
                quantity: dec(7, 0),
                currency: "CZK".to_owned()
            }
        ))
    );
}

#[test]
fn assemble_builds_the_amount_or_refuses_the_quantity() {
    assert_eq!(
        assemble(Some(dec(405, 2)), "USD".to_owned(), 3, 11),
        Ok((
            11,
            Amount {
                quantity: dec(405, 2),
                currency: "USD".to_owned()
            }
        ))
    );
    assert_eq!(
        assemble(None, "USD".to_owned(), 3, 11),
        Err(Failure {
            severity: Severity::Error,
            at: 3,
            code: ErrorKind::MapRes
        })
    );
}

use pledger::parser::error::{ErrorKind, ParseError, Severity};
use pledger::parser::transactions::tags::parse;

#[test]
fn parses_single_tag() {
    assert_eq!(parse(";single"), Ok(("", vec!["single".to_owned()])))
}

#[test]
fn parses_multiple_tags() {
    assert_eq!(
        parse(";single,multiple"),
        Ok(("", vec!["single".to_owned(), "multiple".to_owned()]))
    )
}

#[test]
fn parses_single_tag_with_hyphen() {
    assert_eq!(
        parse(";single-tag"),
        Ok(("", vec!["single-tag".to_owned()]))
    )
}

#[test]
fn parses_multiple_tags_with_hyphen() {
    assert_eq!(
        parse(";single-tag,multiple-tag"),
        Ok(("", vec!["single-tag".to_owned(), "multiple-tag".to_owned()]))
    )
}

#[test]
fn parses_single_tag_with_numbers_and_hyphen() {
    assert_eq!(
        parse(";single-tag-2021"),
        Ok(("", vec!["single-tag-2021".to_owned()]))
    )
}

#[test]
fn parses_multiple_tags_with_numbers_and_hyphen() {
    assert_eq!(
        parse(";single-tag-2021,multiple-tag-2021"),
        Ok((
            "",
            vec!["single-tag-2021".to_owned(), "multiple-tag-2021".to_owned()]
        ))
    )
}

#[test]
fn errors_when_input_does_not_begin_with_semicolon() {
    assert_eq!(
        parse("single"),
        Err(ParseError {
            severity: Severity::Error,
            input: "single",
            code: ErrorKind::Tag
        })
    );
}

#[test]
fn ignores_rest_of_input_if_contains_spaces() {
    assert_eq!(
        parse(";single, with spaces"),
        Ok((", with spaces", vec!["single".to_owned()]))
    );
}

#[test]
fn errors_when_no_tag_follows_the_semicolon() {
    assert_eq!(
        parse("; tag"),
        Err(ParseError {
            severity: Severity::Error,
            input: " tag",
            code: ErrorKind::TakeWhile1
        })
    );
    assert_eq!(
        parse(";"),
        Err(ParseError {
            severity: Severity::Error,
            input: "",
            code: ErrorKind::TakeWhile1
        })
    );
}

#[test]
fn tags_keep_their_order_and_their_duplicates() {
    assert_eq!(
        parse(";b,a,b,\u{e9}t\u{e9}\n"),
        Ok((
            "\n",
            vec![
                "b".to_owned(),
                "a".to_owned(),
                "b".to_owned(),
                "\u{e9}t\u{e9}".to_owned()
            ]
        ))
    );
    assert_eq!(parse(";a,,b"), Ok((",,b", vec!["a".to_owned()])));
}

#[test]
fn tags_written_as_a_list_are_read_back() {
    let tags = vec!["food".to_owned(), "home-2021".to_owned(), "x".to_owned()];
    let text = format!(";{}", tags.join(","));
    assert_eq!(text, ";food,home-2021,x");
    assert_eq!(parse(&text), Ok(("", tags)));
}

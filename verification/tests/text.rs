use pledger::text::{
    chars_of, line_ending, read_number, rest_of, scan, skip, stands_at, text_of, CharClass,
};

#[test]
fn chars_and_rest_follow_characters_not_bytes() {
    let input = "\u{e9}t\u{e9} 12";
    let chars = chars_of(input);
    assert_eq!(chars, vec!['\u{e9}', 't', '\u{e9}', ' ', '1', '2']);
    assert_eq!(rest_of(input, 3), " 12");
    assert_eq!(rest_of(input, 6), "");
    assert_eq!(rest_of(input, 0), input);
    assert_eq!(text_of(&chars, 0, 3), "\u{e9}t\u{e9}");
    assert_eq!(text_of(&chars, 4, 4), "");
}

#[test]
fn scan_stops_at_the_first_character_outside_the_class() {
    let chars = chars_of("ab1 \t\r\n-x.\u{663}\u{e9}");
    assert_eq!(scan(&chars, 0, CharClass::AsciiAlphabetic), 2);
    assert_eq!(scan(&chars, 0, CharClass::AsciiAlphanumeric), 3);
    assert_eq!(scan(&chars, 0, CharClass::AsciiDigit), 0);
    assert_eq!(scan(&chars, 2, CharClass::AsciiDigit), 3);
    assert_eq!(scan(&chars, 3, CharClass::Space), 5);
    assert_eq!(scan(&chars, 3, CharClass::Multispace), 7);
    assert_eq!(scan(&chars, 7, CharClass::Tag), 9);
    assert_eq!(scan(&chars, 7, CharClass::Quantity), 8);
    assert_eq!(scan(&chars, 9, CharClass::Quantity), 11);
    assert_eq!(scan(&chars, 9, CharClass::Date('.')), 11);
    assert_eq!(scan(&chars, 9, CharClass::DateNumber('.')), 9);
    assert_eq!(scan(&chars, 10, CharClass::DateNumber('.')), 11);
    assert_eq!(scan(&chars, 10, CharClass::AsciiDigit), 10);
    assert_eq!(scan(&chars, 10, CharClass::Phrase), 12);
    assert_eq!(scan(&chars, 12, CharClass::Phrase), 12);
}

#[test]
fn line_endings_words_and_single_characters() {
    let chars = chars_of("a\r\nb\n\rc");
    assert_eq!(line_ending(&chars, 1), Some(3));
    assert_eq!(line_ending(&chars, 2), Some(3));
    assert_eq!(line_ending(&chars, 4), Some(5));
    assert_eq!(line_ending(&chars, 5), None);
    assert_eq!(line_ending(&chars, 7), None);
    assert_eq!(skip(&chars, 0, 'a'), 1);
    assert_eq!(skip(&chars, 0, 'b'), 0);
    assert_eq!(skip(&chars, 7, 'a'), 7);
    assert!(stands_at(&chars, 3, &['b', '\n']));
    assert!(!stands_at(&chars, 3, &['b', '\r']));
    assert!(!stands_at(&chars, 6, &['c', 'd']));
    assert!(stands_at(&chars, 7, &[]));
}

#[test]
fn numbers_are_read_up_to_32_bits() {
    let chars = chars_of("x0042949672959");
    assert_eq!(read_number(&chars, 1, 4), Some(4));
    assert_eq!(read_number(&chars, 3, 13), Some(4294967295));
    assert_eq!(read_number(&chars, 3, 14), None);
    assert_eq!(read_number(&chars, 2, 2), Some(0));
}

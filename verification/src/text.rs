//! Character classes and the scanning primitives that every grammar rule is
//! built from. Text is handled as a sequence of `char`s; a position is an
//! index into that sequence.

use vstd::prelude::*;
use vstd::string::*;

verus! {

/// Whether `char::is_numeric` holds of `c`: the character belongs to one of
/// the Unicode number categories.
pub uninterp spec fn numeric_char(c: char) -> bool;

/// Whether `char::is_alphanumeric` holds of `c`: the character is
/// alphabetic or numeric in the sense of Unicode.
pub uninterp spec fn alphanumeric_char(c: char) -> bool;

/// Calls `char::is_numeric`. Its answer is a fixed property of the
/// character, which the contract names `numeric_char`; nothing more is
/// claimed about it.
#[verifier::external_body]
fn is_numeric(c: char) -> (b: bool)
    ensures
        b == numeric_char(c),
{
    c.is_numeric()
}

/// Calls `char::is_alphanumeric`. Its answer is a fixed property of the
/// character, which the contract names `alphanumeric_char`; nothing more is
/// claimed about it.
#[verifier::external_body]
fn is_alphanumeric(c: char) -> (b: bool)
    ensures
        b == alphanumeric_char(c),
{
    c.is_alphanumeric()
}

/// Calls `String::push`, which appends one character to the end of the
/// string.
#[verifier::external_body]
fn push_char(text: &mut String, c: char)
    ensures
        final(text)@ == old(text)@.push(c),
{
    text.push(c)
}

/// Whether `c` is one of `0` to `9`.
pub open spec fn ascii_digit(c: char) -> bool {
    '0' <= c && c <= '9'
}

/// Whether `c` is one of `a` to `z` or of `A` to `Z`.
pub open spec fn ascii_alphabetic(c: char) -> bool {
    ('a' <= c && c <= 'z') || ('A' <= c && c <= 'Z')
}

/// Whether `c` is an ASCII letter or an ASCII digit.
pub open spec fn ascii_alphanumeric(c: char) -> bool {
    ascii_alphabetic(c) || ascii_digit(c)
}

/// The sets of characters that the grammar's tokens are made of.
#[derive(Clone, Copy, Debug)]
pub enum CharClass {
    /// ASCII letters and digits: the segments of an account path.
    AsciiAlphanumeric,
    /// ASCII letters: a currency code.
    AsciiAlphabetic,
    /// ASCII digits: the number of a year directive.
    AsciiDigit,
    /// Space and tab.
    Space,
    /// Space, tab, carriage return and line feed.
    Multispace,
    /// Numeric characters, `.` and `-`: the quantity of an amount.
    Quantity,
    /// Numeric characters and the given separator: a date token.
    Date(char),
    /// Numeric characters other than the given separator: one number of a
    /// date token.
    DateNumber(char),
    /// Alphanumeric characters and `-`: a tag.
    Tag,
    /// Alphanumeric characters and the space: a payee or a description.
    Phrase,
}

impl CharClass {
    /// Whether `c` belongs to the class.
    pub open spec fn contains(self, c: char) -> bool {
        match self {
            CharClass::AsciiAlphanumeric => ascii_alphanumeric(c),
            CharClass::AsciiAlphabetic => ascii_alphabetic(c),
            CharClass::AsciiDigit => ascii_digit(c),
            CharClass::Space => c == ' ' || c == '\t',
            CharClass::Multispace => c == ' ' || c == '\t' || c == '\r' || c == '\n',
            CharClass::Quantity => numeric_char(c) || c == '.' || c == '-',
            CharClass::Date(separator) => numeric_char(c) || c == separator,
            CharClass::DateNumber(separator) => numeric_char(c) && c != separator,
            CharClass::Tag => alphanumeric_char(c) || c == '-',
            CharClass::Phrase => alphanumeric_char(c) || c == ' ',
        }
    }

    /// Tells whether `c` belongs to the class.
    pub fn test(self, c: char) -> (b: bool)
        ensures
            b == self.contains(c),
    {
        match self {
            CharClass::AsciiAlphanumeric => {
                ('a' <= c && c <= 'z') || ('A' <= c && c <= 'Z') || ('0' <= c && c <= '9')
            },
            CharClass::AsciiAlphabetic => ('a' <= c && c <= 'z') || ('A' <= c && c <= 'Z'),
            CharClass::AsciiDigit => '0' <= c && c <= '9',
            CharClass::Space => c == ' ' || c == '\t',
            CharClass::Multispace => c == ' ' || c == '\t' || c == '\r' || c == '\n',
            CharClass::Quantity => is_numeric(c) || c == '.' || c == '-',
            CharClass::Date(separator) => is_numeric(c) || c == separator,
            CharClass::DateNumber(separator) => is_numeric(c) && c != separator,
            CharClass::Tag => is_alphanumeric(c) || c == '-',
            CharClass::Phrase => is_alphanumeric(c) || c == ' ',
        }
    }
}

/// Whether every character of `s` belongs to `class`.
pub open spec fn all_in(s: Seq<char>, class: CharClass) -> bool {
    forall|i: int| 0 <= i < s.len() ==> class.contains(#[trigger] s[i])
}

/// The end of the longest run of `class` characters that starts at `from`:
/// the first position at or after `from` that holds no character of the
/// class, or the end of the text.
pub open spec fn run_end(s: Seq<char>, from: int, class: CharClass) -> int
    decreases s.len() - from,
{
    if 0 <= from < s.len() && class.contains(s[from]) {
        run_end(s, from + 1, class)
    } else {
        from
    }
}

/// `run_end` stays inside the text, everything before it is in the class,
/// and the character at it, if any, is not.
pub proof fn lemma_run_end(s: Seq<char>, from: int, class: CharClass)
    requires
        0 <= from <= s.len(),
    ensures
        from <= run_end(s, from, class) <= s.len(),
        forall|i: int| from <= i < run_end(s, from, class) ==> class.contains(#[trigger] s[i]),
        run_end(s, from, class) < s.len() ==> !class.contains(s[run_end(s, from, class)]),
    decreases s.len() - from,
{
    if from < s.len() && class.contains(s[from]) {
        lemma_run_end(s, from + 1, class);
    }
}

/// A position that ends a run of `class` characters from `from` is the one
/// that `run_end` gives.
pub proof fn lemma_run_end_is(s: Seq<char>, from: int, end: int, class: CharClass)
    requires
        0 <= from <= end <= s.len(),
        forall|i: int| from <= i < end ==> class.contains(#[trigger] s[i]),
        end < s.len() ==> !class.contains(s[end]),
    ensures
        run_end(s, from, class) == end,
    decreases end - from,
{
    if from < end {
        lemma_run_end_is(s, from + 1, end, class);
    }
}

/// Where a line ending that starts at `from` stops: after `"\n"` or
/// `"\r\n"`. `None` where no line ending starts at `from`.
pub open spec fn line_ending_end(s: Seq<char>, from: int) -> Option<int> {
    if 0 <= from < s.len() && s[from] == '\n' {
        Some(from + 1)
    } else if 0 <= from && from + 1 < s.len() && s[from] == '\r' && s[from + 1] == '\n' {
        Some(from + 2)
    } else {
        None
    }
}

/// The position after the character `c` if it stands at `from`, else `from`.
pub open spec fn skip_char(s: Seq<char>, from: int, c: char) -> int {
    if 0 <= from < s.len() && s[from] == c {
        from + 1
    } else {
        from
    }
}

/// A run in the first `m` characters of a text ends where it ends in the
/// whole text, or at `m` where it goes on beyond.
pub proof fn lemma_run_end_in_prefix(s: Seq<char>, from: int, m: int, class: CharClass)
    requires
        0 <= from <= m <= s.len(),
    ensures
        run_end(s.take(m), from, class) == if run_end(s, from, class) <= m {
            run_end(s, from, class)
        } else {
            m
        },
    decreases m - from,
{
    if from < m && class.contains(s[from]) {
        assert(s.take(m)[from] == s[from]);
        lemma_run_end_in_prefix(s, from + 1, m, class);
    } else if from == m {
        lemma_run_end(s, from, class);
    }
}

/// A line ending in the first `m` characters of a text is one in the
/// whole text, and the other way round if it ends within them.
pub proof fn lemma_line_ending_in_prefix(s: Seq<char>, from: int, m: int)
    requires
        0 <= from <= m <= s.len(),
    ensures
        line_ending_end(s, from) is None ==> line_ending_end(s.take(m), from) is None,
        line_ending_end(s, from) matches Some(end) ==> line_ending_end(s.take(m), from) == if end
            <= m {
            Some(end)
        } else {
            None::<int>
        },
{
}

/// The number that a run of ASCII digits spells in base ten.
pub open spec fn decimal_value(digits: Seq<char>) -> nat
    decreases digits.len(),
{
    if digits.len() == 0 {
        0
    } else {
        (decimal_value(digits.drop_last()) * 10 + (digits.last() as int - '0' as int)) as nat
    }
}

/// Appending digits to a run does not make the number it spells smaller.
pub proof fn lemma_decimal_value_grows(digits: Seq<char>, shorter: int)
    requires
        0 <= shorter <= digits.len(),
        all_in(digits, CharClass::AsciiDigit),
    ensures
        decimal_value(digits.take(shorter)) <= decimal_value(digits),
    decreases digits.len() - shorter,
{
    if shorter < digits.len() {
        let longer = digits.take(shorter + 1);
        assert(longer.drop_last() =~= digits.take(shorter));
        assert(longer.last() == digits[shorter]);
        assert(CharClass::AsciiDigit.contains(digits[shorter]));
        lemma_decimal_value_grows(digits, shorter + 1);
    } else {
        assert(digits.take(shorter) =~= digits);
    }
}

/// The ASCII digits that spell a number in base ten, without leading
/// zeros.
pub open spec fn digits_of(n: nat) -> Seq<char>
    decreases n,
{
    if n < 10 {
        seq![('0' as int + n) as char]
    } else {
        digits_of(n / 10).push(('0' as int + n % 10) as char)
    }
}

/// The digits of a number spell that number.
pub proof fn lemma_digits_of(n: nat)
    ensures
        digits_of(n).len() > 0,
        all_in(digits_of(n), CharClass::AsciiDigit),
        decimal_value(digits_of(n)) == n,
    decreases n,
{
    let digits = digits_of(n);
    if n < 10 {
        assert(digits.drop_last() =~= Seq::<char>::empty());
        assert(decimal_value(digits.drop_last()) == 0);
        assert(digits.last() == ('0' as int + n) as char);
    } else {
        lemma_digits_of(n / 10);
        assert(digits.drop_last() =~= digits_of(n / 10));
        assert(digits.last() == ('0' as int + n % 10) as char);
        assert forall|i: int| 0 <= i < digits.len() implies CharClass::AsciiDigit.contains(
            #[trigger] digits[i],
        ) by {
            if i < digits.len() - 1 {
                assert(digits[i] == digits_of(n / 10)[i]);
            }
        }
    }
}

/// Whether the characters of `word` stand at `from`, one after the other.
pub open spec fn word_at(s: Seq<char>, from: int, word: Seq<char>) -> bool {
    0 <= from && from + word.len() <= s.len() && s.subrange(from, from + word.len()) == word
}

/// The characters of `input`, in order.
pub fn chars_of(input: &str) -> (chars: Vec<char>)
    ensures
        chars@ == input@,
{
    let mut chars: Vec<char> = Vec::new();
    for c in it: input.chars()
        invariant
            chars@ == it.seq().take(it.index() as int),
            it.seq() == input@,
    {
        chars.push(c);
    }
    chars
}

/// What is left of `input` from the character position `from` on.
pub fn rest_of<'a>(input: &'a str, from: usize) -> (rest: &'a str)
    requires
        from <= input@.len(),
    ensures
        rest@ == input@.skip(from as int),
{
    let len: usize = input.unicode_len();
    input.substring_char(from, len)
}

/// The text between two positions, as an owned string.
pub fn text_of(chars: &[char], from: usize, to: usize) -> (text: String)
    requires
        from <= to <= chars@.len(),
    ensures
        text@ == chars@.subrange(from as int, to as int),
{
    let mut text = String::new();
    let mut i: usize = from;
    while i < to
        invariant
            from <= i <= to <= chars@.len(),
            text@ == chars@.subrange(from as int, i as int),
        decreases to - i,
    {
        push_char(&mut text, chars[i]);
        i = i + 1;
        assert(text@ =~= chars@.subrange(from as int, i as int));
    }
    assert(text@ =~= chars@.subrange(from as int, to as int));
    text
}

/// Scans the longest run of `class` characters that starts at `from`.
pub fn scan(chars: &[char], from: usize, class: CharClass) -> (end: usize)
    requires
        from <= chars@.len(),
    ensures
        end == run_end(chars@, from as int, class),
        from <= end <= chars@.len(),
{
    let mut end: usize = from;
    while end < chars.len() && class.test(chars[end])
        invariant
            from <= end <= chars@.len(),
            run_end(chars@, from as int, class) == run_end(chars@, end as int, class),
        decreases chars@.len() - end,
    {
        end = end + 1;
    }
    end
}

/// Reads the number that the ASCII digits between two positions spell, if
/// it fits in 32 bits.
pub fn read_number(chars: &[char], from: usize, to: usize) -> (number: Option<u32>)
    requires
        from <= to <= chars@.len(),
        all_in(chars@.subrange(from as int, to as int), CharClass::AsciiDigit),
    ensures
        match number {
            Some(n) => n == decimal_value(chars@.subrange(from as int, to as int)),
            None => decimal_value(chars@.subrange(from as int, to as int)) > u32::MAX,
        },
{
    let ghost digits = chars@.subrange(from as int, to as int);
    let mut value: u64 = 0;
    let mut i: usize = from;
    while i < to
        invariant
            from <= i <= to <= chars@.len(),
            digits == chars@.subrange(from as int, to as int),
            all_in(digits, CharClass::AsciiDigit),
            value == decimal_value(digits.take(i - from)),
            value <= u32::MAX,
        decreases to - i,
    {
        let c = chars[i];
        assert(c == digits[i - from]);
        assert(CharClass::AsciiDigit.contains(digits[i - from]));
        let digit: u64 = (c as u64) - ('0' as u64);
        proof {
            let longer = digits.take(i - from + 1);
            assert(longer.drop_last() =~= digits.take(i - from));
            assert(longer.last() == c);
        }
        value = value * 10 + digit;
        i = i + 1;
        if value > 0xffff_ffff {
            proof {
                lemma_decimal_value_grows(digits, i - from);
            }
            return None;
        }
    }
    assert(digits.take(to - from) =~= digits);
    Some(value as u32)
}

/// Recognises a line ending, `"\n"` or `"\r\n"`, at `from`.
pub fn line_ending(chars: &[char], from: usize) -> (end: Option<usize>)
    requires
        from <= chars@.len(),
    ensures
        match end {
            Some(e) => line_ending_end(chars@, from as int) == Some(e as int) && from < e
                <= chars@.len(),
            None => line_ending_end(chars@, from as int) is None,
        },
{
    if from < chars.len() && chars[from] == '\n' {
        Some(from + 1)
    } else if from < chars.len() && chars.len() - from >= 2 && chars[from] == '\r' && chars[from
        + 1] == '\n' {
        Some(from + 2)
    } else {
        None
    }
}

/// Tells whether the characters of `word` stand at `from`.
pub fn stands_at(chars: &[char], from: usize, word: &[char]) -> (found: bool)
    requires
        from <= chars@.len(),
    ensures
        found == word_at(chars@, from as int, word@),
        found ==> from + word@.len() <= usize::MAX,
{
    if chars.len() - from < word.len() {
        return false;
    }
    let mut i: usize = 0;
    while i < word.len()
        invariant
            i <= word@.len(),
            from + word@.len() <= chars@.len() <= usize::MAX,
            chars@.subrange(from as int, from + i) == word@.take(i as int),
        decreases word@.len() - i,
    {
        if chars[from + i] != word[i] {
            assert(chars@.subrange(from as int, from + word@.len())[i as int] != word@[i as int]);
            return false;
        }
        i = i + 1;
        assert(chars@.subrange(from as int, from + i) =~= word@.take(i as int));
    }
    assert(word@.take(i as int) =~= word@);
    true
}

/// Steps over the character `c` if it stands at `from`.
pub fn skip(chars: &[char], from: usize, c: char) -> (end: usize)
    requires
        from <= chars@.len(),
    ensures
        end == skip_char(chars@, from as int, c),
        from <= end <= chars@.len(),
{
    if from < chars.len() && chars[from] == c {
        from + 1
    } else {
        from
    }
}

} // verus!

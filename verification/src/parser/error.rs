//! How a grammar rule reports that the text does not match it.

use vstd::prelude::*;

use crate::text::rest_of;

verus! {

/// The rule that did not match.
#[derive(Debug, PartialEq, Eq, Clone, Copy, Structural)]
pub enum ErrorKind {
    /// A fixed piece of text was expected.
    Tag,
    /// A letter or a digit was expected.
    AlphaNumeric,
    /// A letter was expected.
    Alpha,
    /// A digit was expected.
    Digit,
    /// A space or a tab was expected.
    Space,
    /// A token of at least one character was expected.
    TakeWhile1,
    /// A token was read and what it holds was refused.
    MapRes,
    /// A line ending was expected.
    CrLf,
    /// The text ended where a character was expected.
    Eof,
}

/// Whether a caller may go on with another rule.
#[derive(Debug, PartialEq, Eq, Clone, Copy, Structural)]
pub enum Severity {
    /// The rule does not match here; another may.
    Error,
    /// The construct was recognised and is malformed; no other rule is to
    /// be tried.
    Failure,
}

/// A rule that did not match, and the position at which it gave up.
pub struct Rejection {
    pub severity: Severity,
    pub at: int,
    pub code: ErrorKind,
}

/// What a rule makes of a text from a position on: the position after what
/// it consumed together with the value it read, or the rejection.
pub type Outcome<T> = Result<(int, T), Rejection>;

/// A rejection that leaves other rules to be tried.
pub open spec fn error_at(at: int, code: ErrorKind) -> Rejection {
    Rejection { severity: Severity::Error, at, code }
}

/// A rejection after which no other rule is to be tried.
pub open spec fn failure_at(at: int, code: ErrorKind) -> Rejection {
    Rejection { severity: Severity::Failure, at, code }
}

/// A rejection, with the position as a machine integer.
#[derive(Debug, PartialEq, Eq, Clone, Copy)]
pub struct Failure {
    pub severity: Severity,
    pub at: usize,
    pub code: ErrorKind,
}

impl View for Failure {
    type V = Rejection;

    open spec fn view(&self) -> Rejection {
        Rejection { severity: self.severity, at: self.at as int, code: self.code }
    }
}

impl Failure {
    /// A rejection that leaves other rules to be tried.
    pub fn error(at: usize, code: ErrorKind) -> (failure: Failure)
        ensures
            failure@ == error_at(at as int, code),
    {
        Failure { severity: Severity::Error, at, code }
    }

    /// A rejection after which no other rule is to be tried.
    pub fn failure(at: usize, code: ErrorKind) -> (failure: Failure)
        ensures
            failure@ == failure_at(at as int, code),
    {
        Failure { severity: Severity::Failure, at, code }
    }
}

/// A rejection, with what was left of the input where the rule gave up.
#[derive(Debug, PartialEq, Eq, Clone, Copy)]
pub struct ParseError<'a> {
    pub severity: Severity,
    pub input: &'a str,
    pub code: ErrorKind,
}

/// A parse error, as a value.
pub struct ParseErrorView {
    pub severity: Severity,
    pub input: Seq<char>,
    pub code: ErrorKind,
}

impl<'a> View for ParseError<'a> {
    type V = ParseErrorView;

    open spec fn view(&self) -> ParseErrorView {
        ParseErrorView { severity: self.severity, input: self.input@, code: self.code }
    }
}

/// Whether the result of a rule run from a position of a text is what the
/// rule's outcome says.
pub open spec fn agrees<T: View>(actual: Result<(usize, T), Failure>, expected: Outcome<T::V>) -> bool {
    match expected {
        Ok((end, value)) => actual matches Ok((e, v)) && e == end && v@ == value,
        Err(rejection) => actual matches Err(failure) && failure@ == rejection,
    }
}

/// Whether the positions of a result lie between `from` and `len`.
pub open spec fn within<T>(actual: Result<(usize, T), Failure>, from: int, len: int) -> bool {
    match actual {
        Ok((end, _)) => from <= end <= len,
        Err(failure) => from <= failure.at <= len,
    }
}

/// Whether the result of a rule run on the whole of `input` is what the
/// rule's outcome says: on success the rest of the input after what was
/// consumed, with the value; else the rest of the input at the rejection.
pub open spec fn reports<T: View>(
    input: Seq<char>,
    actual: Result<(&str, T), ParseError>,
    expected: Outcome<T::V>,
) -> bool {
    match expected {
        Ok((end, value)) => actual matches Ok((rest, v)) && rest@ == input.skip(end) && v@ == value,
        Err(rejection) => actual matches Err(error) && error@ == (ParseErrorView {
            severity: rejection.severity,
            input: input.skip(rejection.at),
            code: rejection.code,
        }),
    }
}

/// Turns the positions of a result into what is left of the input there.
pub fn conclude<'a, T>(input: &'a str, outcome: Result<(usize, T), Failure>) -> (result: Result<
    (&'a str, T),
    ParseError<'a>,
>)
    requires
        within(outcome, 0, input@.len() as int),
    ensures
        match outcome {
            Ok((end, value)) => result matches Ok((rest, v)) && rest@ == input@.skip(end as int)
                && v == value,
            Err(failure) => result matches Err(error) && error@ == (ParseErrorView {
                severity: failure.severity,
                input: input@.skip(failure.at as int),
                code: failure.code,
            }),
        },
{
    match outcome {
        Ok((end, value)) => Ok((rest_of(input, end), value)),
        Err(failure) => Err(
            ParseError {
                severity: failure.severity,
                input: rest_of(input, failure.at),
                code: failure.code,
            },
        ),
    }
}

} // verus!

//! Parse errors.
use vstd::prelude::*;
use crate::token::Token;

verus! {

/// What went wrong while parsing.
#[derive(Clone, Debug, PartialEq)]
pub enum ParseErrorKind {
    /// A token was expected and another, or none, came.
    Expected(Token),
    /// A token was expected, for the reason given.
    ExpectedReason(Token, String),
    /// A token that no rule accepts here.
    Unexpected(Token),
    /// The tokens ended inside the construct named.
    UnexpectedEos(String),
    /// A keyword where a name was expected.
    KeywordAsIdentifier(Token),
    /// A range bound that is not a literal, a variable or a group.
    RangeDelimiter,
    /// Any other error, described in words.
    Custom(String),
}

/// A parse error.
#[derive(Clone, Debug, PartialEq)]
pub struct ParseError {
    pub kind: ParseErrorKind,
}

/// The result of a parsing step.
pub type ParseResult<T> = Result<T, ParseError>;

impl ParseError {
    /// An error of the given kind.
    pub fn new(kind: ParseErrorKind) -> (r: ParseError)
        ensures
            r.kind == kind,
    {
        ParseError { kind }
    }
}

} // verus!

//! Parsing results for the ucg parser and its precedence stage.
use vstd::prelude::*;

pub mod grammar;
pub mod lexer;
pub mod nodes;
pub mod numbers;
pub mod precedence;
pub mod selector;
pub mod syntax;

pub use grammar::{expression, parse, parse_text, selector_value, statement};
pub use lexer::tokenize;

verus! {

/// What went wrong where a parse failed.
#[derive(Debug, PartialEq, Eq, Structural, Clone, Copy)]
pub enum ParseErrorKind {
    /// The input ended where an expression was expected.
    ExpectedExpressionAtEnd,
    /// An operator stood where an expression was expected.
    ExpectedExpression,
    /// An operator of another kind stood where an operator was expected.
    UnexpectedOperator,
    /// An operator expression could not be parsed.
    OperatorExpression,
    /// A token that is no operator stood where an operator was expected.
    ExpectedOperator,
    /// A selector path had a dot with no name or index after it.
    ExpectedSelectorName,
    /// A character that starts no token.
    UnexpectedCharacter,
    /// A quoted string or a pipe quote with no closing quote.
    UnterminatedString,
    /// A token that the grammar does not allow where it stands.
    UnexpectedToken,
    /// A number literal that stands for no number.
    BadNumber,
}

impl ParseErrorKind {
    /// The message that describes this kind of error.
    pub open spec fn text(self) -> Seq<char> {
        match self {
            ParseErrorKind::ExpectedExpressionAtEnd => "Expected Expression found End Of Input"@,
            ParseErrorKind::ExpectedExpression => "Error while parsing Binary Expression Expected Expression"@,
            ParseErrorKind::UnexpectedOperator => "Error while parsing Binary Expression Unexpected Operator"@,
            ParseErrorKind::OperatorExpression => "Failed while parsing operator expression"@,
            ParseErrorKind::ExpectedOperator => "Expected an operator"@,
            ParseErrorKind::ExpectedSelectorName => "Expected a name or an index after '.' in a selector"@,
            ParseErrorKind::UnexpectedCharacter => "Unexpected character"@,
            ParseErrorKind::UnterminatedString => "Unterminated string"@,
            ParseErrorKind::UnexpectedToken => "Unexpected token"@,
            ParseErrorKind::BadNumber => "Invalid number"@,
        }
    }

    /// Returns the message that describes this kind of error.
    pub fn message(&self) -> (r: String)
        ensures
            r@ == self.text(),
    {
        match self {
            ParseErrorKind::ExpectedExpressionAtEnd => "Expected Expression found End Of Input".to_owned(),
            ParseErrorKind::ExpectedExpression => "Error while parsing Binary Expression Expected Expression".to_owned(),
            ParseErrorKind::UnexpectedOperator => "Error while parsing Binary Expression Unexpected Operator".to_owned(),
            ParseErrorKind::OperatorExpression => "Failed while parsing operator expression".to_owned(),
            ParseErrorKind::ExpectedOperator => "Expected an operator".to_owned(),
            ParseErrorKind::ExpectedSelectorName => "Expected a name or an index after '.' in a selector".to_owned(),
            ParseErrorKind::UnexpectedCharacter => "Unexpected character".to_owned(),
            ParseErrorKind::UnterminatedString => "Unterminated string".to_owned(),
            ParseErrorKind::UnexpectedToken => "Unexpected token".to_owned(),
            ParseErrorKind::BadNumber => "Invalid number".to_owned(),
        }
    }
}

/// A parse error: its kind, the offset in the input where it happened, and
/// the error that caused it, if any.
#[derive(Debug, PartialEq)]
pub struct ParseError {
    pub kind: ParseErrorKind,
    pub offset: usize,
    pub cause: Option<Box<ParseError>>,
}

impl ParseError {
    /// An error with no cause.
    pub open spec fn at(kind: ParseErrorKind, offset: usize) -> ParseError {
        ParseError { kind: kind, offset: offset, cause: None }
    }

    /// Constructs an error with no cause.
    pub fn new(kind: ParseErrorKind, offset: usize) -> (r: ParseError)
        ensures
            r == ParseError::at(kind, offset),
    {
        ParseError { kind: kind, offset: offset, cause: None }
    }

    /// Constructs an error caused by another one.
    pub fn caused_by(kind: ParseErrorKind, cause: ParseError, offset: usize) -> (r: ParseError)
        ensures
            r == (ParseError { kind: kind, offset: offset, cause: Some(Box::new(cause)) }),
    {
        ParseError { kind: kind, offset: offset, cause: Some(Box::new(cause)) }
    }
}

/// The result of a parsing attempt at some offset of the input.
#[derive(Debug, PartialEq)]
pub enum ParseResult<T> {
    /// A successful match: the offset after it, and what was parsed.
    Complete(usize, T),
    /// The input ended before a match could be completed, at this offset.
    Incomplete(usize),
    /// A failed match.
    Fail(ParseError),
    /// A failed match that the parser cannot recover from.
    Abort(ParseError),
}

impl<T> ParseResult<T> {
    /// Returns true if the result is Complete.
    pub fn is_complete(&self) -> (r: bool)
        ensures
            r == (self is Complete),
    {
        match self {
            ParseResult::Complete(_, _) => true,
            _ => false,
        }
    }

    /// Returns true if the result is Incomplete.
    pub fn is_incomplete(&self) -> (r: bool)
        ensures
            r == (self is Incomplete),
    {
        match self {
            ParseResult::Incomplete(_) => true,
            _ => false,
        }
    }

    /// Returns true if the result is Fail.
    pub fn is_fail(&self) -> (r: bool)
        ensures
            r == (self is Fail),
    {
        match self {
            ParseResult::Fail(_) => true,
            _ => false,
        }
    }

    /// Returns true if the result is Abort.
    pub fn is_abort(&self) -> (r: bool)
        ensures
            r == (self is Abort),
    {
        match self {
            ParseResult::Abort(_) => true,
            _ => false,
        }
    }
}

} // verus!

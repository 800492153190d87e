//! Errors of the build stage.
use vstd::prelude::*;

use crate::ast::Position;

verus! {

/// The kinds of errors the build stage reports.
#[derive(Debug, PartialEq, Eq, Structural, Clone, Copy)]
pub enum ErrorType {
    // Build Errors
    TypeFail,
    DuplicateBinding,
    IncompleteParsing,
    Unsupported,
    NoSuchSymbol,
    BadArgLen,
    FormatError,
    ReservedWordError,
    // Parsing Errors
    UnexpectedToken,
    EmptyExpression,
    ParseError,
}

/// An error of the build stage: what went wrong, of which kind, and where.
#[derive(Debug)]
pub struct BuildError {
    pub msg: String,
    pub err_type: ErrorType,
    pub pos: Position,
}

impl BuildError {
    /// Constructs a new error.
    pub fn new(msg: String, err_type: ErrorType, pos: Position) -> (r: BuildError)
        ensures
            r.msg == msg,
            r.err_type == err_type,
            r.pos == pos,
    {
        BuildError { msg: msg, err_type: err_type, pos: pos }
    }
}

/// The concatenation of three texts.
pub fn concat3(a: &str, b: &str, c: &str) -> (r: String)
    ensures
        r@ == a@ + b@ + c@,
{
    let mut out = a.to_owned();
    out.append(b);
    out.append(c);
    out
}

/// The concatenation of five texts.
pub fn concat5(a: &str, b: &str, c: &str, d: &str, e: &str) -> (r: String)
    ensures
        r@ == a@ + b@ + c@ + d@ + e@,
{
    let mut out = a.to_owned();
    out.append(b);
    out.append(c);
    out.append(d);
    out.append(e);
    out
}

} // verus!

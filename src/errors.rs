//! The errors that evaluation reports.
use vstd::prelude::*;

use crate::data::TemplateValue;

verus! {

/// What the parser expected where it stopped.
#[derive(Debug, Clone, Copy, PartialEq, Eq, Structural)]
pub enum ParseErrorKind {
    /// the declaration list does not start with `{`
    ExpectedOpenBrace,
    /// the declaration list is not closed by `}`
    ExpectedCloseBrace,
    /// no `->` follows the declaration list
    ExpectedArrow,
    /// nothing follows the arrow: a template needs at least one part
    EmptyTemplate,
}

/// A syntax error: what was expected, and the index (counted in characters)
/// at which the source stopped matching the grammar.
#[derive(Debug, Clone, Copy, PartialEq, Eq, Structural)]
pub struct ParseError {
    pub kind: ParseErrorKind,
    pub position: usize,
}

#[derive(Debug, PartialEq)]
pub enum VerifyError {
    /// the source does not match the grammar
    ParseError(ParseError),
    /// a template inserts a variable that is not declared
    Undefined(TemplateValue),
    /// a declared variable has neither an input value nor a default
    MissingDecl(String),
    /// several errors, reported together
    Errors(Vec<VerifyError>),
}

} // verus!

//! What can go wrong while reading a program or rendering a value.

use vstd::prelude::*;
use crate::ast::Span;
use crate::token::Token;

verus! {

#[derive(Debug, PartialEq)]
pub enum ErrorKind {
    /// A token that the grammar does not allow where it stands.
    UnexpectedToken(Token),
    /// A binary operator with nothing on its left.
    MissingLhs,
    /// The tokens ran out in the middle of a construct.
    UnexpectedEof,
    /// The bytes of a tape program are not text.
    InvalidUtf8,
}

/// A failure together with the place in the source where it was detected.
#[derive(Debug, PartialEq)]
pub struct Error {
    pub kind: ErrorKind,
    pub span: Span,
}

impl Error {
    pub fn new(kind: ErrorKind, span: Span) -> (e: Error)
        ensures
            e == (Error { kind, span }),
    {
        Error { kind, span }
    }

    /// The tokens ended too early, at byte offset `index`.
    pub fn unexpected_eof(index: usize) -> (e: Error)
        ensures
            e == (Error {
                kind: ErrorKind::UnexpectedEof,
                span: Span { start: index, end: index },
            }),
    {
        Error { kind: ErrorKind::UnexpectedEof, span: Span { start: index, end: index } }
    }
}

} // verus!

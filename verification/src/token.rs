//! The lexical tokens that the parser consumes.

use vstd::prelude::*;
use crate::ast::Span;
use crate::variables::Abool;

verus! {

/// A lexical token. Literals and identifiers carry their value.
#[derive(Debug, Clone)]
pub enum Token {
    // Symbols
    LeftParen,
    RightParen,
    LeftBracket,
    RightBracket,
    LeftCurly,
    RightCurly,
    Semicolon,
    Dot,
    Comma,
    // Operators
    Plus,
    Minus,
    Star,
    FwdSlash,
    Equal,
    // Logical operators
    LessThan,
    GreaterThan,
    EqualEqual,
    NotEqual,
    And,
    Or,
    Not,
    // Keywords
    Functio,
    /// The tape-program keyword.
    Bff,
    Var,
    /// Prints the preceding expression.
    Print,
    /// Bans the following variable from ever being used again.
    Melo,
    TDark,
    If,
    Loop,
    Break,
    /// Hops back to the start of the loop.
    HopBack,
    // Literals
    Bool(bool),
    Abool(Abool),
    Char,
    String(String),
    Integer(i32),
    Identifier(String),
    Comment,
    Nul,
    /// Text that is no token at all.
    Error,
}

impl Token {
    /// Whether the token carries a value of its own.
    pub open spec fn has_payload(self) -> bool {
        self is Bool || self is Abool || self is String || self is Integer || self is Identifier
    }

    /// Whether two tokens are of the same kind and carry the same value:
    /// texts are compared by their characters.
    pub open spec fn same_as(self, other: Token) -> bool {
        match (self, other) {
            (Token::Bool(a), Token::Bool(b)) => a == b,
            (Token::Abool(a), Token::Abool(b)) => a == b,
            (Token::String(a), Token::String(b)) => a@ == b@,
            (Token::Integer(a), Token::Integer(b)) => a == b,
            (Token::Identifier(a), Token::Identifier(b)) => a@ == b@,
            _ => !self.has_payload() && self == other,
        }
    }
}

impl PartialEq for Token {
    fn eq(&self, other: &Token) -> (same: bool) {
        match (self, other) {
            (Token::LeftParen, Token::LeftParen) => true,
            (Token::RightParen, Token::RightParen) => true,
            (Token::LeftBracket, Token::LeftBracket) => true,
            (Token::RightBracket, Token::RightBracket) => true,
            (Token::LeftCurly, Token::LeftCurly) => true,
            (Token::RightCurly, Token::RightCurly) => true,
            (Token::Semicolon, Token::Semicolon) => true,
            (Token::Dot, Token::Dot) => true,
            (Token::Comma, Token::Comma) => true,
            (Token::Plus, Token::Plus) => true,
            (Token::Minus, Token::Minus) => true,
            (Token::Star, Token::Star) => true,
            (Token::FwdSlash, Token::FwdSlash) => true,
            (Token::Equal, Token::Equal) => true,
            (Token::LessThan, Token::LessThan) => true,
            (Token::GreaterThan, Token::GreaterThan) => true,
            (Token::EqualEqual, Token::EqualEqual) => true,
            (Token::NotEqual, Token::NotEqual) => true,
            (Token::And, Token::And) => true,
            (Token::Or, Token::Or) => true,
            (Token::Not, Token::Not) => true,
            (Token::Functio, Token::Functio) => true,
            (Token::Bff, Token::Bff) => true,
            (Token::Var, Token::Var) => true,
            (Token::Print, Token::Print) => true,
            (Token::Melo, Token::Melo) => true,
            (Token::TDark, Token::TDark) => true,
            (Token::If, Token::If) => true,
            (Token::Loop, Token::Loop) => true,
            (Token::Break, Token::Break) => true,
            (Token::HopBack, Token::HopBack) => true,
            (Token::Bool(a), Token::Bool(b)) => *a == *b,
            (Token::Abool(a), Token::Abool(b)) => *a == *b,
            (Token::Char, Token::Char) => true,
            (Token::String(a), Token::String(b)) => *a == *b,
            (Token::Integer(a), Token::Integer(b)) => *a == *b,
            (Token::Identifier(a), Token::Identifier(b)) => *a == *b,
            (Token::Comment, Token::Comment) => true,
            (Token::Nul, Token::Nul) => true,
            (Token::Error, Token::Error) => true,
            _ => false,
        }
    }
}

impl vstd::std_specs::cmp::PartialEqSpecImpl for Token {
    open spec fn obeys_eq_spec() -> bool {
        true
    }

    open spec fn eq_spec(&self, other: &Token) -> bool {
        self.same_as(*other)
    }
}

/// One occurrence of a token, with the byte range it was read from.
#[derive(Debug, PartialEq, Clone)]
pub struct Lexeme {
    pub token: Token,
    pub span: Span,
}

impl Lexeme {
    pub fn new(token: Token, span: Span) -> (l: Lexeme)
        ensures
            l == (Lexeme { token, span }),
    {
        Lexeme { token, span }
    }
}

} // verus!

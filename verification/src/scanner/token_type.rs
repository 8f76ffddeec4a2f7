//! The kinds of token, with the payload that two of them carry.
use vstd::prelude::*;
use vstd::std_specs::cmp::PartialEqSpecImpl;
use crate::number;

verus! {

/// A token's kind. `String` carries the text between the quotes, `Number` the
/// IEEE-754 binary64 bit pattern of the literal.
#[derive(Debug)]
pub enum TokenType {
    // Single-character tokens
    LeftParen,
    RightParen,
    LeftBrace,
    RightBrace,
    Comma,
    Dot,
    Minus,
    Plus,
    Semicolon,
    Colon,
    Slash,
    Star,
    Question,
    // One or two character tokens
    Bang,
    BangEqual,
    Equal,
    EqualEqual,
    Greater,
    GreaterEqual,
    Less,
    LessEqual,
    // Literals
    Identifier,
    String(String),
    Number(u64),
    // Keywords
    And,
    Class,
    Else,
    False,
    Fn,
    For,
    If,
    Inherits,
    Null,
    Or,
    Print,
    Return,
    Super,
    _Self,
    True,
    Let,
    While,
    // End of input
    Eof,
}

/// The mathematical value of a `TokenType`: the same kinds, the text as a
/// sequence of characters.
pub enum TokenKind {
    // Single-character tokens
    LeftParen,
    RightParen,
    LeftBrace,
    RightBrace,
    Comma,
    Dot,
    Minus,
    Plus,
    Semicolon,
    Colon,
    Slash,
    Star,
    Question,
    // One or two character tokens
    Bang,
    BangEqual,
    Equal,
    EqualEqual,
    Greater,
    GreaterEqual,
    Less,
    LessEqual,
    // Literals
    Identifier,
    String(Seq<char>),
    Number(u64),
    // Keywords
    And,
    Class,
    Else,
    False,
    Fn,
    For,
    If,
    Inherits,
    Null,
    Or,
    Print,
    Return,
    Super,
    _Self,
    True,
    Let,
    While,
    // End of input
    Eof,
}

impl TokenKind {
    /// Same kind, whatever the payload.
    pub open spec fn same_kind(self, other: TokenKind) -> bool {
        match self {
            TokenKind::String(_) => other is String,
            TokenKind::Number(_) => other is Number,
            _ => self == other,
        }
    }

    /// Same kind and equal payload; two numbers are equal as IEEE-754 has it.
    pub open spec fn equals(self, other: TokenKind) -> bool {
        match (self, other) {
            (TokenKind::Number(a), TokenKind::Number(b)) => number::same(a, b),
            _ => self == other,
        }
    }
}

impl View for TokenType {
    type V = TokenKind;

    open spec fn view(&self) -> TokenKind {
        match self {
            TokenType::LeftParen => TokenKind::LeftParen,
            TokenType::RightParen => TokenKind::RightParen,
            TokenType::LeftBrace => TokenKind::LeftBrace,
            TokenType::RightBrace => TokenKind::RightBrace,
            TokenType::Comma => TokenKind::Comma,
            TokenType::Dot => TokenKind::Dot,
            TokenType::Minus => TokenKind::Minus,
            TokenType::Plus => TokenKind::Plus,
            TokenType::Semicolon => TokenKind::Semicolon,
            TokenType::Colon => TokenKind::Colon,
            TokenType::Slash => TokenKind::Slash,
            TokenType::Star => TokenKind::Star,
            TokenType::Question => TokenKind::Question,
            TokenType::Bang => TokenKind::Bang,
            TokenType::BangEqual => TokenKind::BangEqual,
            TokenType::Equal => TokenKind::Equal,
            TokenType::EqualEqual => TokenKind::EqualEqual,
            TokenType::Greater => TokenKind::Greater,
            TokenType::GreaterEqual => TokenKind::GreaterEqual,
            TokenType::Less => TokenKind::Less,
            TokenType::LessEqual => TokenKind::LessEqual,
            TokenType::Identifier => TokenKind::Identifier,
            TokenType::And => TokenKind::And,
            TokenType::Class => TokenKind::Class,
            TokenType::Else => TokenKind::Else,
            TokenType::False => TokenKind::False,
            TokenType::Fn => TokenKind::Fn,
            TokenType::For => TokenKind::For,
            TokenType::If => TokenKind::If,
            TokenType::Inherits => TokenKind::Inherits,
            TokenType::Null => TokenKind::Null,
            TokenType::Or => TokenKind::Or,
            TokenType::Print => TokenKind::Print,
            TokenType::Return => TokenKind::Return,
            TokenType::Super => TokenKind::Super,
            TokenType::_Self => TokenKind::_Self,
            TokenType::True => TokenKind::True,
            TokenType::Let => TokenKind::Let,
            TokenType::While => TokenKind::While,
            TokenType::Eof => TokenKind::Eof,
            TokenType::String(s) => TokenKind::String(s@),
            TokenType::Number(x) => TokenKind::Number(*x),
        }
    }
}

impl Clone for TokenType {
    fn clone(&self) -> (out: TokenType)
        ensures
            out@ == self@,
    {
        match self {
            TokenType::LeftParen => TokenType::LeftParen,
            TokenType::RightParen => TokenType::RightParen,
            TokenType::LeftBrace => TokenType::LeftBrace,
            TokenType::RightBrace => TokenType::RightBrace,
            TokenType::Comma => TokenType::Comma,
            TokenType::Dot => TokenType::Dot,
            TokenType::Minus => TokenType::Minus,
            TokenType::Plus => TokenType::Plus,
            TokenType::Semicolon => TokenType::Semicolon,
            TokenType::Colon => TokenType::Colon,
            TokenType::Slash => TokenType::Slash,
            TokenType::Star => TokenType::Star,
            TokenType::Question => TokenType::Question,
            TokenType::Bang => TokenType::Bang,
            TokenType::BangEqual => TokenType::BangEqual,
            TokenType::Equal => TokenType::Equal,
            TokenType::EqualEqual => TokenType::EqualEqual,
            TokenType::Greater => TokenType::Greater,
            TokenType::GreaterEqual => TokenType::GreaterEqual,
            TokenType::Less => TokenType::Less,
            TokenType::LessEqual => TokenType::LessEqual,
            TokenType::Identifier => TokenType::Identifier,
            TokenType::And => TokenType::And,
            TokenType::Class => TokenType::Class,
            TokenType::Else => TokenType::Else,
            TokenType::False => TokenType::False,
            TokenType::Fn => TokenType::Fn,
            TokenType::For => TokenType::For,
            TokenType::If => TokenType::If,
            TokenType::Inherits => TokenType::Inherits,
            TokenType::Null => TokenType::Null,
            TokenType::Or => TokenType::Or,
            TokenType::Print => TokenType::Print,
            TokenType::Return => TokenType::Return,
            TokenType::Super => TokenType::Super,
            TokenType::_Self => TokenType::_Self,
            TokenType::True => TokenType::True,
            TokenType::Let => TokenType::Let,
            TokenType::While => TokenType::While,
            TokenType::Eof => TokenType::Eof,
            TokenType::String(s) => TokenType::String(s.clone()),
            TokenType::Number(x) => TokenType::Number(*x),
        }
    }
}

impl TokenType {
    /// Compares kinds only: any `Number` matches any `Number`, any `String`
    /// any `String`.
    pub fn same_kind(&self, other: &TokenType) -> (out: bool)
        ensures
            out == self@.same_kind(other@),
    {
        match (self, other) {
            (TokenType::LeftParen, TokenType::LeftParen) => true,
            (TokenType::RightParen, TokenType::RightParen) => true,
            (TokenType::LeftBrace, TokenType::LeftBrace) => true,
            (TokenType::RightBrace, TokenType::RightBrace) => true,
            (TokenType::Comma, TokenType::Comma) => true,
            (TokenType::Dot, TokenType::Dot) => true,
            (TokenType::Minus, TokenType::Minus) => true,
            (TokenType::Plus, TokenType::Plus) => true,
            (TokenType::Semicolon, TokenType::Semicolon) => true,
            (TokenType::Colon, TokenType::Colon) => true,
            (TokenType::Slash, TokenType::Slash) => true,
            (TokenType::Star, TokenType::Star) => true,
            (TokenType::Question, TokenType::Question) => true,
            (TokenType::Bang, TokenType::Bang) => true,
            (TokenType::BangEqual, TokenType::BangEqual) => true,
            (TokenType::Equal, TokenType::Equal) => true,
            (TokenType::EqualEqual, TokenType::EqualEqual) => true,
            (TokenType::Greater, TokenType::Greater) => true,
            (TokenType::GreaterEqual, TokenType::GreaterEqual) => true,
            (TokenType::Less, TokenType::Less) => true,
            (TokenType::LessEqual, TokenType::LessEqual) => true,
            (TokenType::Identifier, TokenType::Identifier) => true,
            (TokenType::And, TokenType::And) => true,
            (TokenType::Class, TokenType::Class) => true,
            (TokenType::Else, TokenType::Else) => true,
            (TokenType::False, TokenType::False) => true,
            (TokenType::Fn, TokenType::Fn) => true,
            (TokenType::For, TokenType::For) => true,
            (TokenType::If, TokenType::If) => true,
            (TokenType::Inherits, TokenType::Inherits) => true,
            (TokenType::Null, TokenType::Null) => true,
            (TokenType::Or, TokenType::Or) => true,
            (TokenType::Print, TokenType::Print) => true,
            (TokenType::Return, TokenType::Return) => true,
            (TokenType::Super, TokenType::Super) => true,
            (TokenType::_Self, TokenType::_Self) => true,
            (TokenType::True, TokenType::True) => true,
            (TokenType::Let, TokenType::Let) => true,
            (TokenType::While, TokenType::While) => true,
            (TokenType::Eof, TokenType::Eof) => true,
            (TokenType::String(_), TokenType::String(_)) => true,
            (TokenType::Number(_), TokenType::Number(_)) => true,
            _ => false,
        }
    }
}

impl TokenType {
    /// Same kind and equal payload; two numbers are equal as IEEE-754 has it.
    pub fn equals(&self, other: &TokenType) -> (out: bool)
        ensures
            out == self@.equals(other@),
    {
        match (self, other) {
            (TokenType::String(a), TokenType::String(b)) => *a == *b,
            (TokenType::Number(a), TokenType::Number(b)) => number::eq(*a, *b),
            _ => self.same_kind(other),
        }
    }
}

impl PartialEq for TokenType {
    fn eq(&self, other: &TokenType) -> (out: bool) {
        self.equals(other)
    }
}

impl PartialEqSpecImpl for TokenType {
    open spec fn obeys_eq_spec() -> bool {
        true
    }

    open spec fn eq_spec(&self, other: &TokenType) -> bool {
        self@.equals(other@)
    }
}

} // verus!

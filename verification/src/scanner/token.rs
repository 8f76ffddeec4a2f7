//! A token: a classified lexeme with its place in the source.
use vstd::prelude::*;
use crate::parser::expr::Literal;
use crate::parser::expr::Value;
use crate::scanner::token_type::TokenKind;
use crate::scanner::token_type::TokenType;

verus! {

/// A token: its kind, the exact text it was read from, and the line and
/// column that the scan had reached when it was read to its end.
#[derive(Debug)]
pub struct Token {
    pub token: TokenType,
    pub lexeme: String,
    pub line: u32,
    pub column: u32,
}

/// The mathematical value of a `Token`.
pub struct TokenView {
    pub token: TokenKind,
    pub lexeme: Seq<char>,
    pub line: u32,
    pub column: u32,
}

impl TokenView {
    /// The value that a literal token carries, if it carries one.
    pub open spec fn literal(self) -> Option<Value> {
        match self.token {
            TokenKind::Number(x) => Some(Value::Number(x)),
            TokenKind::String(s) => Some(Value::String(s)),
            _ => None,
        }
    }
}

impl View for Token {
    type V = TokenView;

    open spec fn view(&self) -> TokenView {
        TokenView {
            token: self.token@,
            lexeme: self.lexeme@,
            line: self.line,
            column: self.column,
        }
    }
}

impl Clone for Token {
    fn clone(&self) -> (out: Token)
        ensures
            out@ == self@,
    {
        Token {
            token: self.token.clone(),
            lexeme: self.lexeme.clone(),
            line: self.line,
            column: self.column,
        }
    }
}

impl Token {
    /// A token of the given parts.
    pub fn new(token: TokenType, lexeme: String, line: u32, column: u32) -> (out: Token)
        ensures
            out@ == (TokenView { token: token@, lexeme: lexeme@, line, column }),
    {
        Token { token, lexeme, line, column }
    }

    /// The payload of a `Number` or `String` token as a value.
    pub fn get_literal(&self) -> (out: Option<Literal>)
        ensures
            out is Some == self@.literal() is Some,
            out matches Some(l) ==> Some(l@) == self@.literal(),
    {
        match &self.token {
            TokenType::Number(x) => Some(Literal::Number(*x)),
            TokenType::String(s) => Some(Literal::String(s.clone())),
            _ => None,
        }
    }
}

/// The values of a run of tokens, in order.
pub open spec fn views(tokens: Seq<Token>) -> Seq<TokenView> {
    tokens.map_values(|t: Token| t@)
}

} // verus!

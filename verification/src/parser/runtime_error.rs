//! The error that evaluation raises.
use vstd::prelude::*;
use crate::error::layout;
use crate::error::report;
use crate::error::span_views;
use crate::error::Error;
use crate::error::LogLevel;
use crate::error::Span;
use crate::scanner::token::Token;
use crate::scanner::token::TokenView;

verus! {

/// A failure of evaluation: the token it arose at, how grave it is, and what
/// went wrong.
#[derive(Debug)]
pub struct RuntimeError {
    pub token: Token,
    pub log_level: LogLevel,
    pub message: String,
}

/// The mathematical value of a `RuntimeError`.
pub struct Fault {
    pub token: TokenView,
    pub log_level: LogLevel,
    pub message: Seq<char>,
}

impl View for RuntimeError {
    type V = Fault;

    open spec fn view(&self) -> Fault {
        Fault { token: self.token@, log_level: self.log_level, message: self.message@ }
    }
}

impl RuntimeError {
    /// The message alone.
    pub fn to_text(&self) -> (out: String)
        ensures
            out@ == self@.message,
    {
        self.message.clone()
    }
}

impl Error for RuntimeError {
    /// Lays the error out at the place of its token, with no label of place.
    fn report(&self, source: &str) -> (out: Vec<Span>)
        ensures
            span_views(out@) == layout(
                self@.token.line,
                self@.token.column,
                self@.log_level,
                Seq::empty(),
                self@.message,
                source@,
            ),
    {
        let location = String::new();
        report(
            self.token.line,
            self.token.column,
            self.log_level,
            location.as_str(),
            self.message.as_str(),
            source,
        )
    }
}

} // verus!

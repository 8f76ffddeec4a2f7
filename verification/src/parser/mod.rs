//! The parser: tokens to expression trees, by recursive descent.
//!
//! The grammar, from the loosest rule to the tightest:
//!
//! ```text
//! expression := comma
//! comma      := ternary ( ',' ternary )*
//! ternary    := equality ( '?' expression ':' expression )?
//! equality   := comparison ( ('!='|'==') comparison )*
//! comparison := term ( ('>'|'>='|'<'|'<=') term )*
//! term       := factor ( ('-'|'+') factor )*
//! factor     := unary ( ('/'|'*') unary )*
//! unary      := ('!'|'-') unary | primary
//! primary    := NUMBER | STRING | 'true' | 'false' | 'null' | '(' expression ')'
//! ```
//!
//! The last token of the sequence marks the end and is never consumed. A
//! failure ends the attempt at once and is recorded as one diagnostic; the
//! cursor then stands where the failure was met, behind a token that starts
//! no expression, at a token that was wanted and is missing.
use vstd::prelude::*;
use crate::error::diagnostic_views;
use crate::error::Diagnostic;
use crate::error::DiagnosticView;
use crate::error::LogLevel;
use crate::parser::expr::Binary;
use crate::parser::expr::Comma;
use crate::parser::expr::Expr;
use crate::parser::expr::Grouping;
use crate::parser::expr::Literal;
use crate::parser::expr::Ternary;
use crate::parser::expr::Tree;
use crate::parser::expr::Unary;
use crate::parser::expr::Value;
use crate::scanner::token::views;
use crate::scanner::token::Token;
use crate::scanner::token::TokenView;
use crate::scanner::token_type::TokenKind;
use crate::scanner::token_type::TokenType;

pub mod ast_printer;
pub mod expr;
pub mod interpreter;
pub mod laws;
pub mod runtime_error;
pub mod stmt;

verus! {

/// The four levels of infix operators that fold to the left.
#[derive(Clone, Copy, PartialEq, Eq, Structural, Debug)]
pub enum Level {
    Equality,
    Comparison,
    Term,
    Factor,
}

impl Level {
    /// Whether a token of this kind is an operator of the level.
    pub open spec fn has(self, kind: TokenKind) -> bool {
        match self {
            Level::Equality => kind is BangEqual || kind is EqualEqual,
            Level::Comparison => kind is Greater || kind is GreaterEqual || kind is Less
                || kind is LessEqual,
            Level::Term => kind is Minus || kind is Plus,
            Level::Factor => kind is Slash || kind is Star,
        }
    }

    /// The looser the level, the higher its height.
    pub open spec fn height(self) -> nat {
        match self {
            Level::Equality => 4,
            Level::Comparison => 3,
            Level::Term => 2,
            Level::Factor => 1,
        }
    }

    /// The next tighter level, if there is one.
    pub open spec fn tighter(self) -> Option<Level> {
        match self {
            Level::Equality => Some(Level::Comparison),
            Level::Comparison => Some(Level::Term),
            Level::Term => Some(Level::Factor),
            Level::Factor => None,
        }
    }
}

/// Why an attempt failed: the index of the offending token and the message.
pub struct Failure {
    pub at: int,
    pub message: Seq<char>,
}

/// What a rule yields: a tree or a failure, and how many tokens it consumed.
pub struct Parsed {
    pub result: Result<Tree, Failure>,
    pub used: nat,
}

/// The cursor stands at a token of the sequence.
pub open spec fn inside(tokens: Seq<TokenView>, i: int) -> bool {
    0 <= i <= tokens.len() - 1
}

/// The cursor stands at the last token, which marks the end.
pub open spec fn at_end(tokens: Seq<TokenView>, i: int) -> bool {
    i >= tokens.len() - 1
}

/// A token of the given kind stands at `i`, before the end. Only the kind is
/// compared, not what the token carries.
pub open spec fn check(tokens: Seq<TokenView>, i: int, kind: TokenKind) -> bool {
    0 <= i && !at_end(tokens, i) && tokens[i].token.same_kind(kind)
}

/// An operator of the level stands at `i`, before the end.
pub open spec fn operator_at(tokens: Seq<TokenView>, i: int, level: Level) -> bool {
    0 <= i && !at_end(tokens, i) && level.has(tokens[i].token)
}

/// How many tokens stand from `i` on.
pub open spec fn remaining(tokens: Seq<TokenView>, i: int) -> nat {
    if i < tokens.len() {
        (tokens.len() - i) as nat
    } else {
        0
    }
}

/// A failure after `used` tokens.
pub open spec fn failed(at: int, message: Seq<char>, used: nat) -> Parsed {
    Parsed { result: Err(Failure { at, message }), used }
}

/// `primary := NUMBER | STRING | 'true' | 'false' | 'null' | '(' expression ')'`
///
/// A token that starts no expression is consumed and named in the failure;
/// the end marker is named and left.
pub open spec fn primary(tokens: Seq<TokenView>, i: int) -> Parsed
    decreases remaining(tokens, i), 0nat,
{
    if i < 0 || at_end(tokens, i) {
        failed(i, "Expect expression."@, 0)
    } else {
        match tokens[i].token {
            TokenKind::False => Parsed { result: Ok(Tree::Literal(Value::False)), used: 1 },
            TokenKind::True => Parsed { result: Ok(Tree::Literal(Value::True)), used: 1 },
            TokenKind::Null => Parsed { result: Ok(Tree::Literal(Value::Null)), used: 1 },
            TokenKind::Number(x) => Parsed { result: Ok(Tree::Literal(Value::Number(x))), used: 1 },
            TokenKind::String(s) => Parsed { result: Ok(Tree::Literal(Value::String(s))), used: 1 },
            TokenKind::LeftParen => {
                let inner = expression(tokens, i + 1);
                let close = i + 1 + inner.used;
                match inner.result {
                    Err(failure) => Parsed { result: Err(failure), used: 1 + inner.used },
                    Ok(tree) => if check(tokens, close, TokenKind::RightParen) {
                        Parsed { result: Ok(Tree::Grouping(Box::new(tree))), used: 2 + inner.used }
                    } else {
                        failed(close, "Expected ')' after expression."@, 1 + inner.used)
                    },
                }
            },
            _ => failed(i, "Expect expression."@, 1),
        }
    }
}

/// `unary := ('!'|'-') unary | primary`
pub open spec fn unary(tokens: Seq<TokenView>, i: int) -> Parsed
    decreases remaining(tokens, i), 1nat,
{
    if check(tokens, i, TokenKind::Bang) || check(tokens, i, TokenKind::Minus) {
        let operand = unary(tokens, i + 1);
        match operand.result {
            Err(failure) => Parsed { result: Err(failure), used: 1 + operand.used },
            Ok(tree) => Parsed {
                result: Ok(Tree::Unary(tokens[i], Box::new(tree))),
                used: 1 + operand.used,
            },
        }
    } else {
        primary(tokens, i)
    }
}

/// An operand of a level: the next tighter level, or `unary` below `factor`.
pub open spec fn operand(tokens: Seq<TokenView>, i: int, level: Level) -> Parsed
    decreases remaining(tokens, i), 2 * level.height(),
{
    match level.tighter() {
        Some(tighter) => infix(tokens, i, tighter),
        None => unary(tokens, i),
    }
}

/// The operators and operands that follow `left` at one level, folded to the
/// left: each operator takes all that was read before it as its left operand.
pub open spec fn infix_rest(tokens: Seq<TokenView>, i: int, level: Level, left: Tree) -> Parsed
    decreases remaining(tokens, i), 2 * level.height(),
{
    if operator_at(tokens, i, level) {
        let right = operand(tokens, i + 1, level);
        match right.result {
            Err(failure) => Parsed { result: Err(failure), used: 1 + right.used },
            Ok(tree) => {
                let more = infix_rest(
                    tokens,
                    i + 1 + right.used,
                    level,
                    Tree::Binary(Box::new(left), tokens[i], Box::new(tree)),
                );
                Parsed { result: more.result, used: 1 + right.used + more.used }
            },
        }
    } else {
        Parsed { result: Ok(left), used: 0 }
    }
}

/// One level of infix operators: `operand ( operator operand )*`.
pub open spec fn infix(tokens: Seq<TokenView>, i: int, level: Level) -> Parsed
    decreases remaining(tokens, i), 2 * level.height() + 1,
{
    let first = operand(tokens, i, level);
    match first.result {
        Err(failure) => first,
        Ok(tree) => {
            let rest = infix_rest(tokens, i + first.used, level, tree);
            Parsed { result: rest.result, used: first.used + rest.used }
        },
    }
}

/// `ternary := equality ( '?' expression ':' expression )?`
pub open spec fn ternary(tokens: Seq<TokenView>, i: int) -> Parsed
    decreases remaining(tokens, i), 10nat,
{
    let condition = infix(tokens, i, Level::Equality);
    let question = i + condition.used;
    match condition.result {
        Err(failure) => condition,
        Ok(test) => if check(tokens, question, TokenKind::Question) {
            let if_true = expression(tokens, question + 1);
            let colon = question + 1 + if_true.used;
            match if_true.result {
                Err(failure) => Parsed {
                    result: Err(failure),
                    used: condition.used + 1 + if_true.used,
                },
                Ok(first) => if check(tokens, colon, TokenKind::Colon) {
                    let if_false = expression(tokens, colon + 1);
                    Parsed {
                        result: match if_false.result {
                            Err(failure) => Err(failure),
                            Ok(second) => Ok(
                                Tree::Ternary(Box::new(test), Box::new(first), Box::new(second)),
                            ),
                        },
                        used: condition.used + 1 + if_true.used + 1 + if_false.used,
                    }
                } else {
                    failed(
                        colon,
                        "Expect ':' after then branch of conditional expression."@,
                        condition.used + 1 + if_true.used,
                    )
                },
            }
        } else {
            condition
        },
    }
}

/// The commas and operands that follow `left`, folded to the left.
pub open spec fn comma_rest(tokens: Seq<TokenView>, i: int, left: Tree) -> Parsed
    decreases remaining(tokens, i), 11nat,
{
    if check(tokens, i, TokenKind::Comma) {
        let right = ternary(tokens, i + 1);
        match right.result {
            Err(failure) => Parsed { result: Err(failure), used: 1 + right.used },
            Ok(tree) => {
                let more = comma_rest(
                    tokens,
                    i + 1 + right.used,
                    Tree::Comma(Box::new(left), Box::new(tree)),
                );
                Parsed { result: more.result, used: 1 + right.used + more.used }
            },
        }
    } else {
        Parsed { result: Ok(left), used: 0 }
    }
}

/// `comma := ternary ( ',' ternary )*`
pub open spec fn comma(tokens: Seq<TokenView>, i: int) -> Parsed
    decreases remaining(tokens, i), 12nat,
{
    let first = ternary(tokens, i);
    match first.result {
        Err(failure) => first,
        Ok(tree) => {
            let rest = comma_rest(tokens, i + first.used, tree);
            Parsed { result: rest.result, used: first.used + rest.used }
        },
    }
}

/// `expression := comma`
pub open spec fn expression(tokens: Seq<TokenView>, i: int) -> Parsed
    decreases remaining(tokens, i), 13nat,
{
    comma(tokens, i)
}

/// The label of place of a failure: the lexeme in quotes, or the end.
pub open spec fn place(token: TokenView) -> Seq<char> {
    if token.token is Eof {
        "at end"@
    } else {
        "at '"@ + token.lexeme + "'"@
    }
}

/// The diagnostic of a failure at a token.
pub open spec fn syntax_error(token: TokenView, message: Seq<char>) -> DiagnosticView {
    DiagnosticView {
        line: token.line,
        column: token.column,
        log_level: LogLevel::Error,
        location: place(token),
        message,
    }
}

/// A token that begins a new top-level construct.
pub open spec fn begins_construct(kind: TokenKind) -> bool {
    kind is Class || kind is Fn || kind is Let || kind is For || kind is If || kind is While
        || kind is Print || kind is Return
}

/// How many tokens recovery skips from `i` on, where the token before `i`
/// was skipped already: it stops behind a `;`, before a token that begins a
/// construct, and at the end.
pub open spec fn skipped(tokens: Seq<TokenView>, i: int) -> nat
    decreases remaining(tokens, i),
{
    if i < 1 || at_end(tokens, i) || tokens[i - 1].token.equals(TokenKind::Semicolon)
        || begins_construct(tokens[i].token) {
        0
    } else {
        1 + skipped(tokens, i + 1)
    }
}

/// How many tokens recovery skips from `i` on: the token at `i` and what
/// follows it up to a place to start again.
pub open spec fn synchronised(tokens: Seq<TokenView>, i: int) -> nat {
    if at_end(tokens, i) {
        0
    } else {
        1 + skipped(tokens, i + 1)
    }
}

/// The marker of a failed attempt; what failed is in the parser's diagnostics.
#[derive(Clone, Copy, Debug)]
pub struct ParseError;

/// The parser: the tokens, a cursor into them that all calls share, and the
/// failures recorded so far.
pub struct Parser {
    source: String,
    tokens: Vec<Token>,
    current: usize,
    diagnostics: Vec<Diagnostic>,
}

impl Parser {
    /// The tokens that the parser reads.
    pub closed spec fn input(&self) -> Seq<TokenView> {
        views(self.tokens@)
    }

    /// The index of the token at the cursor.
    pub closed spec fn position(&self) -> int {
        self.current as int
    }

    /// The failures recorded so far.
    pub closed spec fn reported(&self) -> Seq<DiagnosticView> {
        diagnostic_views(self.diagnostics@)
    }

    /// The source text that the parser was made with.
    pub closed spec fn text(&self) -> Seq<char> {
        self.source@
    }

    /// There is a last token, and the cursor does not pass it.
    pub closed spec fn wf(&self) -> bool {
        self.tokens.len() >= 1 && self.current <= self.tokens.len() - 1
    }

    /// What holds after a rule has run from `before` and yielded `out`, where
    /// the grammar yields `parsed`.
    spec fn follows(&self, before: &Parser, parsed: Parsed, out: Result<Expr, ParseError>) -> bool {
        &&& self.wf()
        &&& self.tokens == before.tokens
        &&& self.source == before.source
        &&& self.current == before.current + parsed.used
        &&& match out {
            Ok(expr) => parsed.result == Ok::<Tree, Failure>(expr@) && self.diagnostics
                == before.diagnostics,
            Err(_) => parsed.result is Err && diagnostic_views(self.diagnostics@)
                == diagnostic_views(before.diagnostics@).push(
                syntax_error(
                    views(before.tokens@)[parsed.result->Err_0.at],
                    parsed.result->Err_0.message,
                ),
            ) && 0 <= parsed.result->Err_0.at < before.tokens.len(),
        }
    }

    /// A parser in good order has its cursor at one of its tokens.
    pub proof fn cursor_is_inside(&self)
        requires
            self.wf(),
        ensures
            inside(self.input(), self.position()),
    {
    }

    /// A parser at the first of the tokens. The last token marks the end, so
    /// there has to be one.
    pub fn new(source: String, tokens: Vec<Token>) -> (out: Parser)
        requires
            tokens@.len() >= 1,
        ensures
            out.wf(),
            inside(out.input(), out.position()),
            out.input() == views(tokens@),
            out.text() == source@,
            out.position() == 0,
            out.reported() == Seq::<DiagnosticView>::empty(),
    {
        let out = Parser { source, tokens, current: 0, diagnostics: Vec::new() };
        assert(diagnostic_views(out.diagnostics@) =~= Seq::<DiagnosticView>::empty());
        out
    }

    /// The index of the token at the cursor.
    pub fn current(&self) -> (out: usize)
        ensures
            out == self.position(),
    {
        self.current
    }

    /// The source text that the parser was made with.
    pub fn source(&self) -> (out: &String)
        ensures
            out@ == self.text(),
    {
        &self.source
    }

    /// How many tokens the parser reads, the end marker counted.
    pub fn len(&self) -> (out: usize)
        ensures
            out == self.input().len(),
    {
        self.tokens.len()
    }

    /// The failures recorded so far, one for each failed attempt.
    pub fn diagnostics(&self) -> (out: &Vec<Diagnostic>)
        ensures
            diagnostic_views(out@) == self.reported(),
    {
        &self.diagnostics
    }

    /// Parses one expression at the cursor. `None` at the end of the tokens,
    /// and where the attempt fails; a failure is recorded.
    pub fn parse(&mut self) -> (out: Option<Expr>)
        requires
            old(self).wf(),
        ensures
            final(self).wf(),
            inside(final(self).input(), final(self).position()),
            final(self).input() == old(self).input(),
            final(self).text() == old(self).text(),
            ({
                let tokens = old(self).input();
                let parsed = expression(tokens, old(self).position());
                if at_end(tokens, old(self).position()) {
                    &&& out is None
                    &&& final(self).position() == old(self).position()
                    &&& final(self).reported() == old(self).reported()
                } else {
                    &&& final(self).position() == old(self).position() + parsed.used
                    &&& match parsed.result {
                        Ok(tree) => {
                            &&& out matches Some(expr)
                            &&& expr@ == tree
                            &&& final(self).reported() == old(self).reported()
                        },
                        Err(failure) => {
                            &&& out is None
                            &&& 0 <= failure.at < tokens.len()
                            &&& final(self).reported() == old(self).reported().push(
                                syntax_error(tokens[failure.at], failure.message),
                            )
                        },
                    }
                }
            }),
    {
        if self.is_at_end() {
            return None;
        }
        match self.expression() {
            Ok(expr) => Some(expr),
            Err(_) => None,
        }
    }

    fn expression(&mut self) -> (out: Result<Expr, ParseError>)
        requires
            old(self).wf(),
        ensures
            final(self).follows(
                old(self),
                expression(views(old(self).tokens@), old(self).current as int),
                out,
            ),
        decreases old(self).tokens.len() - old(self).current, 13nat,
    {
        self.comma()
    }

    fn comma(&mut self) -> (out: Result<Expr, ParseError>)
        requires
            old(self).wf(),
        ensures
            final(self).follows(
                old(self),
                comma(views(old(self).tokens@), old(self).current as int),
                out,
            ),
        decreases old(self).tokens.len() - old(self).current, 12nat,
    {
        let ghost tokens = views(self.tokens@);
        let ghost start = self.current as int;
        let mut expr = self.ternary()?;
        let ghost first = ternary(tokens, start);
        loop
            invariant
                self.wf(),
                self.tokens == old(self).tokens,
                self.source == old(self).source,
                self.diagnostics == old(self).diagnostics,
                tokens == views(self.tokens@),
                start == old(self).current,
                start <= self.current,
                ({
                    let rest = comma_rest(tokens, self.current as int, expr@);
                    let whole = comma(tokens, start);
                    whole.result == rest.result && start + whole.used == self.current + rest.used
                }),
            decreases self.tokens.len() - self.current,
        {
            if !self.match_kind(&TokenType::Comma) {
                return Ok(expr);
            }
            let next = self.ternary()?;
            expr = Expr::Comma(Comma { expr: Box::new(expr), next: Box::new(next) });
        }
    }

    fn ternary(&mut self) -> (out: Result<Expr, ParseError>)
        requires
            old(self).wf(),
        ensures
            final(self).follows(
                old(self),
                ternary(views(old(self).tokens@), old(self).current as int),
                out,
            ),
        decreases old(self).tokens.len() - old(self).current, 10nat,
    {
        let condition = self.equality()?;
        if !self.match_kind(&TokenType::Question) {
            return Ok(condition);
        }
        let if_true = self.expression()?;
        self.consume(&TokenType::Colon, "Expect ':' after then branch of conditional expression.")?;
        let if_false = self.expression()?;
        Ok(
            Expr::Ternary(
                Ternary {
                    condition: Box::new(condition),
                    if_true: Box::new(if_true),
                    if_false: Box::new(if_false),
                },
            ),
        )
    }

    fn equality(&mut self) -> (out: Result<Expr, ParseError>)
        requires
            old(self).wf(),
        ensures
            final(self).follows(
                old(self),
                infix(views(old(self).tokens@), old(self).current as int, Level::Equality),
                out,
            ),
        decreases old(self).tokens.len() - old(self).current, 9nat, 1nat,
    {
        self.infix(Level::Equality)
    }

    fn comparison(&mut self) -> (out: Result<Expr, ParseError>)
        requires
            old(self).wf(),
        ensures
            final(self).follows(
                old(self),
                infix(views(old(self).tokens@), old(self).current as int, Level::Comparison),
                out,
            ),
        decreases old(self).tokens.len() - old(self).current, 7nat, 1nat,
    {
        self.infix(Level::Comparison)
    }

    fn term(&mut self) -> (out: Result<Expr, ParseError>)
        requires
            old(self).wf(),
        ensures
            final(self).follows(
                old(self),
                infix(views(old(self).tokens@), old(self).current as int, Level::Term),
                out,
            ),
        decreases old(self).tokens.len() - old(self).current, 5nat, 1nat,
    {
        self.infix(Level::Term)
    }

    fn factor(&mut self) -> (out: Result<Expr, ParseError>)
        requires
            old(self).wf(),
        ensures
            final(self).follows(
                old(self),
                infix(views(old(self).tokens@), old(self).current as int, Level::Factor),
                out,
            ),
        decreases old(self).tokens.len() - old(self).current, 3nat, 1nat,
    {
        self.infix(Level::Factor)
    }

    /// An operand of a level: the rule of the next tighter level.
    fn operand(&mut self, level: Level) -> (out: Result<Expr, ParseError>)
        requires
            old(self).wf(),
        ensures
            final(self).follows(
                old(self),
                operand(views(old(self).tokens@), old(self).current as int, level),
                out,
            ),
        decreases old(self).tokens.len() - old(self).current, 2 * level.height(), 0nat,
    {
        match level {
            Level::Equality => self.comparison(),
            Level::Comparison => self.term(),
            Level::Term => self.factor(),
            Level::Factor => self.unary(),
        }
    }

    /// One level of infix operators. The running result becomes the left
    /// operand of each operator that follows.
    fn infix(&mut self, level: Level) -> (out: Result<Expr, ParseError>)
        requires
            old(self).wf(),
        ensures
            final(self).follows(
                old(self),
                infix(views(old(self).tokens@), old(self).current as int, level),
                out,
            ),
        decreases old(self).tokens.len() - old(self).current, 2 * level.height() + 1, 0nat,
    {
        let ghost tokens = views(self.tokens@);
        let ghost start = self.current as int;
        let mut expr = self.operand(level)?;
        loop
            invariant
                self.wf(),
                self.tokens == old(self).tokens,
                self.source == old(self).source,
                self.diagnostics == old(self).diagnostics,
                tokens == views(self.tokens@),
                start == old(self).current,
                start <= self.current,
                ({
                    let rest = infix_rest(tokens, self.current as int, level, expr@);
                    let whole = infix(tokens, start, level);
                    whole.result == rest.result && start + whole.used == self.current + rest.used
                }),
            decreases self.tokens.len() - self.current,
        {
            if !self.match_operator(level) {
                return Ok(expr);
            }
            let operator = self.previous();
            let right = self.operand(level)?;
            expr = Expr::Binary(Binary { left: Box::new(expr), operator, right: Box::new(right) });
        }
    }

    fn unary(&mut self) -> (out: Result<Expr, ParseError>)
        requires
            old(self).wf(),
        ensures
            final(self).follows(
                old(self),
                unary(views(old(self).tokens@), old(self).current as int),
                out,
            ),
        decreases old(self).tokens.len() - old(self).current, 1nat,
    {
        if self.match_kind(&TokenType::Bang) || self.match_kind(&TokenType::Minus) {
            let operator = self.previous();
            let expression = self.unary()?;
            return Ok(Expr::Unary(Unary { operator, expression: Box::new(expression) }));
        }
        self.primary()
    }

    fn primary(&mut self) -> (out: Result<Expr, ParseError>)
        requires
            old(self).wf(),
        ensures
            final(self).follows(
                old(self),
                primary(views(old(self).tokens@), old(self).current as int),
                out,
            ),
        decreases old(self).tokens.len() - old(self).current, 0nat,
    {
        if self.is_at_end() {
            return Err(self.error(self.current, "Expect expression."));
        }
        let at = self.current;
        self.advance();
        match &self.tokens[at].token {
            TokenType::False => return Ok(Expr::Literal(Literal::False)),
            TokenType::True => return Ok(Expr::Literal(Literal::True)),
            TokenType::Null => return Ok(Expr::Literal(Literal::Null)),
            TokenType::Number(x) => return Ok(Expr::Literal(Literal::Number(*x))),
            TokenType::String(s) => return Ok(Expr::Literal(Literal::String(s.clone()))),
            TokenType::LeftParen => {},
            _ => return Err(self.error(at, "Expect expression.")),
        }
        let expr = self.expression()?;
        self.consume(&TokenType::RightParen, "Expected ')' after expression.")?;
        Ok(Expr::Grouping(Grouping { expression: Box::new(expr) }))
    }

    /// Recovery after a failure: skips tokens up to a place where a new
    /// construct can start. No rule of the grammar calls it; it is there for
    /// the loop that drives the parser.
    pub fn synchronise(&mut self)
        requires
            old(self).wf(),
        ensures
            final(self).wf(),
            inside(final(self).input(), final(self).position()),
            final(self).input() == old(self).input(),
            final(self).text() == old(self).text(),
            final(self).reported() == old(self).reported(),
            final(self).position() == old(self).position() + synchronised(
                old(self).input(),
                old(self).position(),
            ),
    {
        let ghost tokens = views(self.tokens@);
        let ghost start = self.current as int;
        if self.is_at_end() {
            return ;
        }
        self.advance();
        while !self.is_at_end()
            invariant
                self.wf(),
                self.tokens == old(self).tokens,
                self.source == old(self).source,
                self.diagnostics == old(self).diagnostics,
                tokens == views(self.tokens@),
                start == old(self).current,
                start + 1 <= self.current,
                start + synchronised(tokens, start) == self.current + skipped(
                    tokens,
                    self.current as int,
                ),
            decreases self.tokens.len() - self.current,
        {
            if self.tokens[self.current - 1].token.equals(&TokenType::Semicolon) {
                return ;
            }
            match self.tokens[self.current].token {
                TokenType::Class
                | TokenType::Fn
                | TokenType::Let
                | TokenType::For
                | TokenType::If
                | TokenType::While
                | TokenType::Print
                | TokenType::Return => {
                    return ;
                },
                _ => {},
            }
            self.advance();
        }
    }

    /// Consumes the token at the cursor if it is of the given kind.
    fn match_kind(&mut self, kind: &TokenType) -> (out: bool)
        requires
            old(self).wf(),
        ensures
            final(self).wf(),
            final(self).tokens == old(self).tokens,
            final(self).source == old(self).source,
            final(self).diagnostics == old(self).diagnostics,
            out == check(views(old(self).tokens@), old(self).current as int, kind@),
            final(self).current == if out {
                old(self).current + 1
            } else {
                old(self).current as int
            },
    {
        if self.check(kind) {
            self.advance();
            return true;
        }
        false
    }

    /// Consumes the token at the cursor if it is an operator of the level.
    fn match_operator(&mut self, level: Level) -> (out: bool)
        requires
            old(self).wf(),
        ensures
            final(self).wf(),
            final(self).tokens == old(self).tokens,
            final(self).source == old(self).source,
            final(self).diagnostics == old(self).diagnostics,
            out == operator_at(views(old(self).tokens@), old(self).current as int, level),
            final(self).current == if out {
                old(self).current + 1
            } else {
                old(self).current as int
            },
    {
        match level {
            Level::Equality => self.match_kind(&TokenType::BangEqual) || self.match_kind(
                &TokenType::EqualEqual,
            ),
            Level::Comparison => self.match_kind(&TokenType::Greater) || self.match_kind(
                &TokenType::GreaterEqual,
            ) || self.match_kind(&TokenType::Less) || self.match_kind(&TokenType::LessEqual),
            Level::Term => self.match_kind(&TokenType::Minus) || self.match_kind(&TokenType::Plus),
            Level::Factor => self.match_kind(&TokenType::Slash) || self.match_kind(
                &TokenType::Star,
            ),
        }
    }

    fn check(&self, kind: &TokenType) -> (out: bool)
        requires
            self.wf(),
        ensures
            out == check(views(self.tokens@), self.current as int, kind@),
    {
        if self.is_at_end() {
            return false;
        }
        self.tokens[self.current].token.same_kind(kind)
    }

    /// Moves the cursor on by one token, but not past the last.
    fn advance(&mut self)
        requires
            old(self).wf(),
        ensures
            final(self).wf(),
            final(self).tokens == old(self).tokens,
            final(self).source == old(self).source,
            final(self).diagnostics == old(self).diagnostics,
            final(self).current == if at_end(views(old(self).tokens@), old(self).current as int) {
                old(self).current as int
            } else {
                old(self).current + 1
            },
    {
        if !self.is_at_end() {
            self.current += 1;
        }
    }

    /// Whether the cursor stands at the last token.
    pub fn is_at_end(&self) -> (out: bool)
        requires
            self.wf(),
        ensures
            out == at_end(self.input(), self.position()),
    {
        self.current == self.tokens.len() - 1
    }

    /// The token just consumed.
    fn previous(&self) -> (out: Token)
        requires
            self.wf(),
            self.current >= 1,
        ensures
            out@ == views(self.tokens@)[self.current - 1],
    {
        self.tokens[self.current - 1].clone()
    }

    /// Consumes a token of the given kind, or fails at the token that stands
    /// in its place.
    fn consume(&mut self, kind: &TokenType, message: &str) -> (out: Result<(), ParseError>)
        requires
            old(self).wf(),
        ensures
            final(self).wf(),
            final(self).tokens == old(self).tokens,
            final(self).source == old(self).source,
            out is Ok == check(views(old(self).tokens@), old(self).current as int, kind@),
            out is Ok ==> final(self).current == old(self).current + 1 && final(self).diagnostics
                == old(self).diagnostics,
            out is Err ==> final(self).current == old(self).current && diagnostic_views(
                final(self).diagnostics@,
            ) == diagnostic_views(old(self).diagnostics@).push(
                syntax_error(views(old(self).tokens@)[old(self).current as int], message@),
            ),
    {
        if self.check(kind) {
            self.advance();
            return Ok(());
        }
        Err(self.error(self.current, message))
    }

    /// Records a failure at the token with index `at`.
    fn error(&mut self, at: usize, message: &str) -> (out: ParseError)
        requires
            old(self).wf(),
            at < old(self).tokens.len(),
        ensures
            final(self).wf(),
            final(self).tokens == old(self).tokens,
            final(self).source == old(self).source,
            final(self).current == old(self).current,
            diagnostic_views(final(self).diagnostics@) == diagnostic_views(
                old(self).diagnostics@,
            ).push(syntax_error(views(old(self).tokens@)[at as int], message@)),
    {
        let token = &self.tokens[at];
        let location = match token.token {
            TokenType::Eof => "at end".to_string(),
            _ => {
                let mut text = "at '".to_string();
                text.append(token.lexeme.as_str());
                text.append("'");
                text
            },
        };
        let diagnostic = Diagnostic {
            line: token.line,
            column: token.column,
            log_level: LogLevel::Error,
            location,
            message: message.to_string(),
        };
        self.diagnostics.push(diagnostic);
        assert(diagnostic_views(self.diagnostics@) =~= diagnostic_views(
            old(self).diagnostics@,
        ).push(self.diagnostics@.last()@));
        ParseError
    }
}


} // verus!

//! The scanner: source text to tokens, in one pass from left to right.
//!
//! A lexical error is recorded and the scan goes on with the next character.
//! The line is counted on every newline, also inside string literals and
//! block comments; the column is set to 1 there and not otherwise advanced.
//! A block comment ends at the first `*/`; one that is never closed runs to
//! the end of the text. A string has no escapes: it ends at the next `"`.
use vstd::prelude::*;
use crate::error::diagnostic_views;
use crate::error::Diagnostic;
use crate::error::DiagnosticView;
use crate::error::LogLevel;
use crate::number::reads;
use crate::number::ReadModel;
use crate::scanner::token::views;
use crate::scanner::token::Token;
use crate::scanner::token::TokenView;
use crate::scanner::token_type::TokenKind;
use crate::scanner::token_type::TokenType;
use crate::text::chars_of;
use crate::text::digit;
use crate::text::ident_char;
use crate::text::is_digit;
use crate::text::is_ident_char;
use crate::text::text_of;
use crate::text::whitespace;

verus! {

/// The character at `i`, or NUL outside the text.
pub open spec fn at(source: Seq<char>, i: int) -> char {
    if 0 <= i < source.len() {
        source[i]
    } else {
        '\0'
    }
}

/// The characters that a run is made of.
#[derive(Clone, Copy, PartialEq, Eq, Structural, Debug)]
pub enum Run {
    /// Decimal digits.
    Digits,
    /// Characters of an identifier.
    Word,
    /// Anything but a newline.
    Line,
    /// Anything but a double quote.
    Quoted,
}

impl Run {
    /// Whether `c` may stand in the run.
    pub open spec fn holds(self, c: char) -> bool {
        match self {
            Run::Digits => digit(c),
            Run::Word => ident_char(c),
            Run::Line => c != '\n',
            Run::Quoted => c != '"',
        }
    }
}

/// How many characters from `from` on, without a gap, stand in the run.
pub open spec fn run_len(source: Seq<char>, from: int, run: Run) -> nat
    decreases source.len() - from,
{
    if 0 <= from < source.len() && run.holds(source[from]) {
        1 + run_len(source, from + 1, run)
    } else {
        0
    }
}

/// How many characters the inside of a block comment takes from `from` on:
/// up to and with the first `*/`, or all that is left.
pub open spec fn comment_len(source: Seq<char>, from: int) -> nat
    decreases source.len() - from,
{
    if from < 0 || from >= source.len() {
        0
    } else if source[from] == '*' && at(source, from + 1) == '/' {
        2
    } else {
        1 + comment_len(source, from + 1)
    }
}

/// How many newlines stand in `source[from..to]`.
pub open spec fn newlines(source: Seq<char>, from: int, to: int) -> nat
    decreases to - from,
{
    if from < 0 || to > source.len() || from >= to {
        0
    } else {
        newlines(source, from, to - 1) + if source[to - 1] == '\n' {
            1nat
        } else {
            0nat
        }
    }
}

/// The line number `count` newlines after `line`; it stops at the largest.
pub open spec fn bump(line: u32, count: nat) -> u32 {
    if line + count > u32::MAX {
        u32::MAX
    } else {
        (line + count) as u32
    }
}

/// The reserved words.
pub open spec fn keyword(word: Seq<char>) -> Option<TokenKind> {
    if word == "and"@ {
        Some(TokenKind::And)
    } else if word == "class"@ {
        Some(TokenKind::Class)
    } else if word == "else"@ {
        Some(TokenKind::Else)
    } else if word == "false"@ {
        Some(TokenKind::False)
    } else if word == "for"@ {
        Some(TokenKind::For)
    } else if word == "fn"@ {
        Some(TokenKind::Fn)
    } else if word == "if"@ {
        Some(TokenKind::If)
    } else if word == "null"@ {
        Some(TokenKind::Null)
    } else if word == "or"@ {
        Some(TokenKind::Or)
    } else if word == "print"@ {
        Some(TokenKind::Print)
    } else if word == "return"@ {
        Some(TokenKind::Return)
    } else if word == "super"@ {
        Some(TokenKind::Super)
    } else if word == "self"@ {
        Some(TokenKind::_Self)
    } else if word == "true"@ {
        Some(TokenKind::True)
    } else if word == "let"@ {
        Some(TokenKind::Let)
    } else if word == "while"@ {
        Some(TokenKind::While)
    } else if word == "inherits"@ {
        Some(TokenKind::Inherits)
    } else {
        None
    }
}

/// The token that a punctuation character alone makes.
pub open spec fn punctuation(c: char) -> Option<TokenKind> {
    if c == '(' {
        Some(TokenKind::LeftParen)
    } else if c == ')' {
        Some(TokenKind::RightParen)
    } else if c == '{' {
        Some(TokenKind::LeftBrace)
    } else if c == '}' {
        Some(TokenKind::RightBrace)
    } else if c == ',' {
        Some(TokenKind::Comma)
    } else if c == '.' {
        Some(TokenKind::Dot)
    } else if c == '-' {
        Some(TokenKind::Minus)
    } else if c == '+' {
        Some(TokenKind::Plus)
    } else if c == ';' {
        Some(TokenKind::Semicolon)
    } else if c == ':' {
        Some(TokenKind::Colon)
    } else if c == '*' {
        Some(TokenKind::Star)
    } else if c == '?' {
        Some(TokenKind::Question)
    } else {
        None
    }
}

/// The pair of tokens that a character makes alone and before `=`.
pub open spec fn comparison(c: char) -> Option<(TokenKind, TokenKind)> {
    if c == '!' {
        Some((TokenKind::Bang, TokenKind::BangEqual))
    } else if c == '=' {
        Some((TokenKind::Equal, TokenKind::EqualEqual))
    } else if c == '<' {
        Some((TokenKind::Less, TokenKind::LessEqual))
    } else if c == '>' {
        Some((TokenKind::Greater, TokenKind::GreaterEqual))
    } else {
        None
    }
}

/// What the scanner finds at a position.
pub enum Found {
    /// A token of this kind.
    Token(TokenKind),
    /// A number literal.
    Number,
    /// Blank space or a comment: nothing to emit.
    Skip,
    /// A character that starts nothing.
    Unexpected,
    /// A string literal that the text ends in.
    Unterminated,
}

/// One step of the scan: the lexeme reaches over `1 + extra` characters and
/// crosses `lines` newlines.
pub struct Step {
    pub extra: nat,
    pub lines: nat,
    pub found: Found,
}

/// The characters that a number literal takes after its first digit: the
/// rest of the digits, then a point and more digits where a digit follows
/// the point.
pub open spec fn number_extra(source: Seq<char>, pos: int) -> nat {
    let whole = run_len(source, pos + 1, Run::Digits);
    let point = pos + 1 + whole;
    if at(source, point) == '.' && digit(at(source, point + 1)) {
        whole + 1 + run_len(source, point + 1, Run::Digits)
    } else {
        whole
    }
}

/// A number literal: digits, and after them, if anything, a point and more
/// digits.
pub open spec fn number_literal(text: Seq<char>) -> bool {
    let whole = run_len(text, 0, Run::Digits) as int;
    &&& whole >= 1
    &&& whole == text.len() || {
        &&& text[whole] == '.'
        &&& run_len(text, whole + 1, Run::Digits) >= 1
        &&& whole + 1 + run_len(text, whole + 1, Run::Digits) == text.len()
    }
}

/// The step that the scan takes at `pos`, a position inside the text.
///
/// The character at `pos` decides: punctuation first, then a quote, a
/// newline, a digit, other blank space, and a character of an identifier;
/// any other character starts nothing.
pub open spec fn step(source: Seq<char>, pos: int) -> Step {
    let c = source[pos];
    let next = at(source, pos + 1);
    if punctuation(c) is Some {
        Step { extra: 0, lines: 0, found: Found::Token(punctuation(c).unwrap()) }
    } else if comparison(c) is Some {
        if next == '=' {
            Step { extra: 1, lines: 0, found: Found::Token(comparison(c).unwrap().1) }
        } else {
            Step { extra: 0, lines: 0, found: Found::Token(comparison(c).unwrap().0) }
        }
    } else if c == '/' {
        if next == '/' {
            Step {
                extra: 1 + run_len(source, pos + 2, Run::Line),
                lines: 0,
                found: Found::Skip,
            }
        } else if next == '*' {
            let inside = comment_len(source, pos + 2);
            Step {
                extra: 1 + inside,
                lines: newlines(source, pos + 2, pos + 2 + inside),
                found: Found::Skip,
            }
        } else {
            Step { extra: 0, lines: 0, found: Found::Token(TokenKind::Slash) }
        }
    } else if c == '"' {
        let inside = run_len(source, pos + 1, Run::Quoted);
        let close = pos + 1 + inside;
        if close < source.len() {
            Step {
                extra: inside + 1,
                lines: newlines(source, pos + 1, close),
                found: Found::Token(TokenKind::String(source.subrange(pos + 1, close))),
            }
        } else {
            Step {
                extra: inside,
                lines: newlines(source, pos + 1, close),
                found: Found::Unterminated,
            }
        }
    } else if c == '\n' {
        Step { extra: 0, lines: 1, found: Found::Skip }
    } else if digit(c) {
        Step { extra: number_extra(source, pos), lines: 0, found: Found::Number }
    } else if whitespace(c) {
        Step { extra: 0, lines: 0, found: Found::Skip }
    } else if ident_char(c) {
        let extra = run_len(source, pos + 1, Run::Word);
        let word = source.subrange(pos, pos + 1 + extra);
        Step {
            extra,
            lines: 0,
            found: Found::Token(
                match keyword(word) {
                    Some(kind) => kind,
                    None => TokenKind::Identifier,
                },
            ),
        }
    } else {
        Step { extra: 0, lines: 0, found: Found::Unexpected }
    }
}

/// What a scan yields: the tokens and the lexical errors, each in order.
pub struct Scanned {
    pub tokens: Seq<TokenView>,
    pub errors: Seq<DiagnosticView>,
}

/// A lexical error at a line.
pub open spec fn lexical_error(line: u32, message: Seq<char>) -> DiagnosticView {
    DiagnosticView {
        line,
        column: 1,
        log_level: LogLevel::Error,
        location: Seq::empty(),
        message,
    }
}

/// The tokens that one step emits: none or one.
pub open spec fn step_tokens(
    found: Found,
    lexeme: Seq<char>,
    line: u32,
    read: ReadModel,
) -> Seq<TokenView> {
    match found {
        Found::Token(kind) => seq![TokenView { token: kind, lexeme, line, column: 1 }],
        Found::Number => seq![
            TokenView { token: TokenKind::Number(read(lexeme)), lexeme, line, column: 1 },
        ],
        _ => Seq::empty(),
    }
}

/// The errors that one step records: none or one.
pub open spec fn step_errors(found: Found, first: char, line: u32) -> Seq<DiagnosticView> {
    match found {
        Found::Unexpected => seq![lexical_error(line, "Unexpected character: "@.push(first))],
        Found::Unterminated => seq![lexical_error(line, "Unterminated string."@)],
        _ => Seq::empty(),
    }
}

/// The end-of-input token at a line.
pub open spec fn sentinel(line: u32) -> TokenView {
    TokenView { token: TokenKind::Eof, lexeme: Seq::empty(), line, column: 1 }
}

/// The scan of `source` from `pos` on, begun at line `line`. Each token and
/// each error carries the line that the scan has reached when the lexeme is
/// read to its end.
pub open spec fn scan_from(source: Seq<char>, pos: int, line: u32, read: ReadModel) -> Scanned
    decreases
        (if pos < source.len() {
            source.len() - pos
        } else {
            0
        }),
{
    if pos < 0 || pos >= source.len() {
        Scanned { tokens: seq![sentinel(line)], errors: Seq::empty() }
    } else {
        let taken = step(source, pos);
        let end = pos + 1 + taken.extra;
        let reached = bump(line, taken.lines);
        let rest = scan_from(source, end, reached, read);
        Scanned {
            tokens: step_tokens(taken.found, source.subrange(pos, end), reached, read)
                + rest.tokens,
            errors: step_errors(taken.found, source[pos], reached) + rest.errors,
        }
    }
}

/// The reader that reads zero from every text. A scan with it shows all of
/// a scan that does not hang on the reader: every error, and of every token
/// all but what a number carries.
pub open spec fn blank() -> ReadModel {
    |text: Seq<char>| 0u64
}

/// A token without what a number carries: a number token gets zero, any
/// other token is left as it is.
pub open spec fn outline(token: TokenView) -> TokenView {
    match token.token {
        TokenKind::Number(_) => TokenView {
            token: TokenKind::Number(0),
            lexeme: token.lexeme,
            line: token.line,
            column: token.column,
        },
        _ => token,
    }
}

/// The outlines of a run of tokens, in order.
pub open spec fn outlines(tokens: Seq<TokenView>) -> Seq<TokenView> {
    tokens.map_values(|t: TokenView| outline(t))
}

/// A number token carries what the reader gave back for its lexeme; of any
/// other token nothing is asked.
pub open spec fn read_by<F: Fn(&str) -> u64>(reader: &F, token: TokenView) -> bool {
    token.token is Number ==> exists|text: &str|
        text@ == token.lexeme && #[trigger] call_ensures(
            *reader,
            (text,),
            token.token->Number_0,
        )
}

/// The scan of a whole text.
pub open spec fn scan(source: Seq<char>, read: ReadModel) -> Scanned {
    scan_from(source, 0, 1, read)
}

/// A run ends inside the text.
pub proof fn run_bounded(source: Seq<char>, from: int, run: Run)
    requires
        0 <= from <= source.len(),
    ensures
        from + run_len(source, from, run) <= source.len(),
    decreases source.len() - from,
{
    if from < source.len() && run.holds(source[from]) {
        run_bounded(source, from + 1, run);
    }
}

/// A run inside a stretch of the text is the run in the text, cut off where
/// the stretch ends.
pub proof fn run_in_stretch(source: Seq<char>, from: int, to: int, at: int, run: Run)
    requires
        0 <= from <= at <= to <= source.len(),
    ensures
        run_len(source.subrange(from, to), at - from, run) == if run_len(source, at, run) <= to
            - at {
            run_len(source, at, run)
        } else {
            (to - at) as nat
        },
    decreases to - at,
{
    if at < to && run.holds(source[at]) {
        run_in_stretch(source, from, to, at + 1, run);
    }
}

/// What the scan reads as a number is a number literal.
pub proof fn number_is_literal(source: Seq<char>, pos: int)
    requires
        0 <= pos < source.len(),
        digit(source[pos]),
    ensures
        number_literal(source.subrange(pos, pos + 1 + number_extra(source, pos))),
{
    let whole = run_len(source, pos + 1, Run::Digits);
    let point = pos + 1 + whole;
    let end = pos + 1 + number_extra(source, pos);
    run_bounded(source, pos + 1, Run::Digits);
    if point + 1 <= source.len() {
        run_bounded(source, point + 1, Run::Digits);
    }
    run_in_stretch(source, pos, end, pos, Run::Digits);
    if end > point {
        run_in_stretch(source, pos, end, point + 1, Run::Digits);
    }
}

/// A block comment ends inside the text.
pub proof fn comment_bounded(source: Seq<char>, from: int)
    requires
        0 <= from <= source.len(),
    ensures
        from + comment_len(source, from) <= source.len(),
    decreases source.len() - from,
{
    if from < source.len() && !(source[from] == '*' && at(source, from + 1) == '/') {
        comment_bounded(source, from + 1);
    }
}

/// Every step ends inside the text.
pub proof fn step_bounded(source: Seq<char>, pos: int)
    requires
        0 <= pos < source.len(),
    ensures
        pos + 1 + step(source, pos).extra <= source.len(),
{
    run_bounded(source, pos + 1, Run::Digits);
    run_bounded(source, pos + 1, Run::Word);
    run_bounded(source, pos + 1, Run::Quoted);
    let whole = run_len(source, pos + 1, Run::Digits);
    if pos + 2 + whole <= source.len() {
        run_bounded(source, pos + 2 + whole, Run::Digits);
    }
    if pos + 2 <= source.len() {
        run_bounded(source, pos + 2, Run::Line);
        comment_bounded(source, pos + 2);
    }
}

/// The outlines of a run with one token more, and of a run with none more.
proof fn outlined(tokens: Seq<TokenView>)
    ensures
        forall|token: TokenView| #[trigger]
            outlines(tokens.push(token)) == outlines(tokens) + seq![outline(token)],
        outlines(tokens) + Seq::<TokenView>::empty() == outlines(tokens),
{
    assert forall|token: TokenView| #[trigger]
        outlines(tokens.push(token)) == outlines(tokens) + seq![outline(token)] by {
        assert(outlines(tokens.push(token)) =~= outlines(tokens) + seq![outline(token)]);
    }
    assert(outlines(tokens) + Seq::<TokenView>::empty() =~= outlines(tokens));
}

/// The scanner: the text, a cursor into it, the line reached, and what was
/// emitted and recorded so far.
pub struct Scanner {
    source: Vec<char>,
    tokens: Vec<Token>,
    diagnostics: Vec<Diagnostic>,
    start: usize,
    current: usize,
    line: u32,
    column: u32,
}

impl Scanner {
    /// The text being scanned.
    pub closed spec fn text(&self) -> Seq<char> {
        self.source@
    }

    /// How many characters have been read.
    pub closed spec fn position(&self) -> int {
        self.current as int
    }

    /// The line that the scan has reached.
    pub closed spec fn line(&self) -> u32 {
        self.line
    }

    /// The tokens emitted so far.
    pub closed spec fn emitted(&self) -> Seq<TokenView> {
        views(self.tokens@)
    }

    /// The lexical errors recorded so far.
    pub closed spec fn reported(&self) -> Seq<DiagnosticView> {
        diagnostic_views(self.diagnostics@)
    }

    /// The cursor stands inside the text and the column is 1.
    pub closed spec fn wf(&self) -> bool {
        &&& self.start <= self.current <= self.source.len()
        &&& self.column == 1
    }

    /// Nothing but the cursor and the line differs between the two.
    spec fn moved_from(&self, before: &Scanner) -> bool {
        &&& self.source == before.source
        &&& self.tokens == before.tokens
        &&& self.diagnostics == before.diagnostics
        &&& self.start == before.start
        &&& self.column == before.column
    }

    /// A scanner at the start of the text, on line 1.
    pub fn new(source: String) -> (out: Scanner)
        ensures
            out.wf(),
            out.text() == source@,
            out.position() == 0,
            out.line() == 1,
            out.emitted() == Seq::<TokenView>::empty(),
            out.reported() == Seq::<DiagnosticView>::empty(),
    {
        let out = Scanner {
            source: chars_of(source.as_str()),
            tokens: Vec::new(),
            diagnostics: Vec::new(),
            start: 0,
            current: 0,
            line: 1,
            column: 1,
        };
        assert(views(out.tokens@) =~= Seq::<TokenView>::empty());
        assert(diagnostic_views(out.diagnostics@) =~= Seq::<DiagnosticView>::empty());
        out
    }

    /// The lexical errors recorded so far. A unit with any is a failed unit.
    pub fn diagnostics(&self) -> (out: &Vec<Diagnostic>)
        ensures
            diagnostic_views(out@) == self.reported(),
    {
        &self.diagnostics
    }

    /// Scans what is left of the text and ends the tokens with the sentinel.
    /// `number` reads the pattern of a number literal from its lexeme.
    ///
    /// Whatever `number` gives back, the errors are those of the scan, and so
    /// are the tokens but for what the number tokens carry, each of which
    /// carries what `number` gave back for its lexeme. Where `number`
    /// computes a model, the tokens are those of the scan with that model.
    pub fn scan_tokens<F: Fn(&str) -> u64>(&mut self, number: &F) -> (out: Vec<Token>)
        requires
            old(self).wf(),
            forall|text: &str| number_literal(text@) ==> call_requires(*number, (text,)),
        ensures
            final(self).wf(),
            final(self).text() == old(self).text(),
            final(self).position() == old(self).text().len(),
            final(self).emitted() == views(out@),
            out@.len() >= 1,
            ({
                let rest = scan_from(
                    old(self).text(),
                    old(self).position(),
                    old(self).line(),
                    blank(),
                );
                &&& final(self).reported() == old(self).reported() + rest.errors
                &&& outlines(views(out@)) == outlines(old(self).emitted()) + rest.tokens
                &&& views(out@).take(old(self).emitted().len() as int) == old(self).emitted()
                &&& forall|k: int|
                    old(self).emitted().len() <= k < out@.len() ==> read_by(
                        number,
                        #[trigger] views(out@)[k],
                    )
            }),
            forall|read: ReadModel|
                reads(number, read) ==> {
                    let rest = #[trigger] scan_from(
                        old(self).text(),
                        old(self).position(),
                        old(self).line(),
                        read,
                    );
                    &&& views(out@) == old(self).emitted() + rest.tokens
                    &&& final(self).reported() == old(self).reported() + rest.errors
                },
    {
        while !self.is_at_end()
            invariant
                self.wf(),
                self.source == old(self).source,
                forall|text: &str| number_literal(text@) ==> call_requires(*number, (text,)),
                ({
                    let all = scan_from(
                        old(self).source@,
                        old(self).current as int,
                        old(self).line,
                        blank(),
                    );
                    let rest = scan_from(self.source@, self.current as int, self.line, blank());
                    &&& outlines(views(old(self).tokens@)) + all.tokens == outlines(
                        views(self.tokens@),
                    ) + rest.tokens
                    &&& diagnostic_views(old(self).diagnostics@) + all.errors == diagnostic_views(
                        self.diagnostics@,
                    ) + rest.errors
                }),
                old(self).tokens.len() <= self.tokens.len(),
                views(self.tokens@).take(old(self).tokens.len() as int) == views(
                    old(self).tokens@,
                ),
                forall|k: int|
                    old(self).tokens.len() <= k < self.tokens.len() ==> read_by(
                        number,
                        #[trigger] views(self.tokens@)[k],
                    ),
                forall|read: ReadModel|
                    reads(number, read) ==> {
                        let all = #[trigger] scan_from(
                            old(self).source@,
                            old(self).current as int,
                            old(self).line,
                            read,
                        );
                        let rest = scan_from(self.source@, self.current as int, self.line, read);
                        &&& views(old(self).tokens@) + all.tokens == views(self.tokens@)
                            + rest.tokens
                        &&& diagnostic_views(old(self).diagnostics@) + all.errors
                            == diagnostic_views(self.diagnostics@) + rest.errors
                    },
            decreases self.source.len() - self.current,
        {
            self.start = self.current;
            let ghost before = *self;
            self.scan_token(number);
            proof {
                let taken = step(before.source@, before.current as int);
                let lexeme = before.source@.subrange(before.current as int, self.current as int);
                let emitted = step_tokens(taken.found, lexeme, self.line, blank());
                let rest = scan_from(self.source@, self.current as int, self.line, blank());
                let was = scan_from(before.source@, before.current as int, before.line, blank());
                assert(was.tokens == emitted + rest.tokens);
                assert(outlines(views(before.tokens@)) + (emitted + rest.tokens) =~= (outlines(
                    views(before.tokens@),
                ) + emitted) + rest.tokens);
                let errors = step_errors(
                    taken.found,
                    before.source@[before.current as int],
                    self.line,
                );
                assert(diagnostic_views(before.diagnostics@) + (errors + rest.errors) =~= (
                diagnostic_views(before.diagnostics@) + errors) + rest.errors);
                assert(views(self.tokens@).take(old(self).tokens.len() as int) =~= views(
                    before.tokens@,
                ).take(old(self).tokens.len() as int));
                assert forall|k: int|
                    old(self).tokens.len() <= k < self.tokens.len() implies read_by(
                    number,
                    #[trigger] views(self.tokens@)[k],
                ) by {
                    if k < before.tokens.len() {
                        assert(views(self.tokens@)[k] == views(before.tokens@)[k]);
                    }
                }
            }
            assert forall|read: ReadModel| reads(number, read) implies {
                let all = #[trigger] scan_from(
                    old(self).source@,
                    old(self).current as int,
                    old(self).line,
                    read,
                );
                let rest = scan_from(self.source@, self.current as int, self.line, read);
                &&& views(old(self).tokens@) + all.tokens == views(self.tokens@) + rest.tokens
                &&& diagnostic_views(old(self).diagnostics@) + all.errors == diagnostic_views(
                    self.diagnostics@,
                ) + rest.errors
            } by {
                let all = scan_from(old(self).source@, old(self).current as int, old(self).line, read);
                let was = scan_from(before.source@, before.current as int, before.line, read);
                let rest = scan_from(self.source@, self.current as int, self.line, read);
                let taken = step(before.source@, before.current as int);
                let lexeme = before.source@.subrange(before.current as int, self.current as int);
                assert(was.tokens == step_tokens(taken.found, lexeme, self.line, read)
                    + rest.tokens);
                assert(views(old(self).tokens@) + all.tokens == views(before.tokens@)
                    + was.tokens);
                assert(views(before.tokens@) + (step_tokens(taken.found, lexeme, self.line, read)
                    + rest.tokens) =~= (views(before.tokens@) + step_tokens(
                    taken.found,
                    lexeme,
                    self.line,
                    read,
                )) + rest.tokens);
                let errors = step_errors(taken.found, before.source@[before.current as int], self.line);
                assert(diagnostic_views(before.diagnostics@) + (errors + rest.errors) =~= (
                diagnostic_views(before.diagnostics@) + errors) + rest.errors);
            }
        }
        let ghost scanned = self.tokens@;
        self.tokens.push(Token::new(TokenType::Eof, String::new(), self.line, self.column));
        let out = self.clone_tokens();
        proof {
            let last = sentinel(self.line);
            assert(self.tokens@.drop_last() =~= scanned);
            assert(views(self.tokens@) =~= views(scanned) + seq![last]);
            assert(outlines(views(self.tokens@)) =~= outlines(views(scanned)) + seq![last]);
            assert(scan_from(self.source@, self.current as int, self.line, blank()).tokens == seq![
                last,
            ]);
            assert(diagnostic_views(self.diagnostics@) + Seq::<DiagnosticView>::empty()
                =~= diagnostic_views(self.diagnostics@));
            assert(views(self.tokens@).take(old(self).tokens.len() as int) =~= views(
                scanned,
            ).take(old(self).tokens.len() as int));
            assert forall|k: int|
                old(self).tokens.len() <= k < self.tokens.len() implies read_by(
                number,
                #[trigger] views(self.tokens@)[k],
            ) by {
                if k < scanned.len() {
                    assert(views(self.tokens@)[k] == views(scanned)[k]);
                } else {
                    assert(views(self.tokens@)[k] == last);
                }
            }
            assert forall|read: ReadModel| reads(number, read) implies {
                let rest = #[trigger] scan_from(
                    old(self).text(),
                    old(self).position(),
                    old(self).line(),
                    read,
                );
                &&& views(out@) == old(self).emitted() + rest.tokens
                &&& self.reported() == old(self).reported() + rest.errors
            } by {
                let rest = scan_from(old(self).source@, old(self).current as int, old(self).line, read);
                let end = scan_from(self.source@, self.current as int, self.line, read);
                assert(end.tokens == seq![last]);
                assert(end.errors == Seq::<DiagnosticView>::empty());
                assert(diagnostic_views(self.diagnostics@) + end.errors =~= diagnostic_views(
                    self.diagnostics@,
                ));
            }
        }
        out
    }

    fn clone_tokens(&self) -> (out: Vec<Token>)
        ensures
            views(out@) == views(self.tokens@),
    {
        let mut out: Vec<Token> = Vec::new();
        let mut i: usize = 0;
        while i < self.tokens.len()
            invariant
                i <= self.tokens.len(),
                views(out@) == views(self.tokens@.take(i as int)),
            decreases self.tokens.len() - i,
        {
            let ghost copied = out@;
            out.push(self.tokens[i].clone());
            i += 1;
            assert(views(out@) =~= views(copied).push(self.tokens@[i - 1]@));
            assert(views(self.tokens@.take(i as int)) =~= views(self.tokens@.take(i - 1)).push(
                self.tokens@[i - 1]@,
            ));
        }
        assert(self.tokens@.take(i as int) =~= self.tokens@);
        out
    }

    /// Reads one lexeme, from its first character on.
    #[verifier::spinoff_prover]
    #[verifier::rlimit(60)]
    fn scan_token<F: Fn(&str) -> u64>(&mut self, number: &F)
        requires
            old(self).wf(),
            old(self).start == old(self).current,
            old(self).current < old(self).source.len(),
            forall|text: &str| number_literal(text@) ==> call_requires(*number, (text,)),
        ensures
            final(self).wf(),
            final(self).source == old(self).source,
            ({
                let taken = step(old(self).source@, old(self).current as int);
                let lexeme = old(self).source@.subrange(
                    old(self).current as int,
                    final(self).current as int,
                );
                &&& final(self).current == old(self).current + 1 + taken.extra
                &&& final(self).line == bump(old(self).line, taken.lines)
                &&& diagnostic_views(final(self).diagnostics@) == diagnostic_views(
                    old(self).diagnostics@,
                ) + step_errors(
                    taken.found,
                    old(self).source@[old(self).current as int],
                    final(self).line,
                )
                &&& forall|read: ReadModel|
                    reads(number, read) ==> views(final(self).tokens@) == views(old(self).tokens@)
                        + #[trigger] step_tokens(taken.found, lexeme, final(self).line, read)
                &&& outlines(views(final(self).tokens@)) == outlines(views(old(self).tokens@))
                    + step_tokens(taken.found, lexeme, final(self).line, blank())
                &&& old(self).tokens.len() <= final(self).tokens.len()
                &&& forall|k: int|
                    0 <= k < old(self).tokens.len() ==> #[trigger] views(final(self).tokens@)[k]
                        == views(old(self).tokens@)[k]
                &&& forall|k: int|
                    old(self).tokens.len() <= k < final(self).tokens.len() ==> read_by(
                        number,
                        #[trigger] views(final(self).tokens@)[k],
                    )
            }),
    {
        proof {
            step_bounded(self.source@, self.current as int);
            outlined(views(self.tokens@));
        }
        let c = self.advance();
        if c == '(' {
            self.add_token(TokenType::LeftParen);
        } else if c == ')' {
            self.add_token(TokenType::RightParen);
        } else if c == '{' {
            self.add_token(TokenType::LeftBrace);
        } else if c == '}' {
            self.add_token(TokenType::RightBrace);
        } else if c == ',' {
            self.add_token(TokenType::Comma);
        } else if c == '.' {
            self.add_token(TokenType::Dot);
        } else if c == '-' {
            self.add_token(TokenType::Minus);
        } else if c == '+' {
            self.add_token(TokenType::Plus);
        } else if c == ';' {
            self.add_token(TokenType::Semicolon);
        } else if c == ':' {
            self.add_token(TokenType::Colon);
        } else if c == '*' {
            self.add_token(TokenType::Star);
        } else if c == '?' {
            self.add_token(TokenType::Question);
        } else if c == '!' {
            if self.match_next('=') {
                self.add_token(TokenType::BangEqual);
            } else {
                self.add_token(TokenType::Bang);
            }
        } else if c == '=' {
            if self.match_next('=') {
                self.add_token(TokenType::EqualEqual);
            } else {
                self.add_token(TokenType::Equal);
            }
        } else if c == '<' {
            if self.match_next('=') {
                self.add_token(TokenType::LessEqual);
            } else {
                self.add_token(TokenType::Less);
            }
        } else if c == '>' {
            if self.match_next('=') {
                self.add_token(TokenType::GreaterEqual);
            } else {
                self.add_token(TokenType::Greater);
            }
        } else if c == '/' {
            let next = self.peek(0);
            if next == '/' {
                self.advance();
                self.take_run(Run::Line);
                proof {
                    self.nothing();
                }
            } else if next == '*' {
                self.advance();
                self.block_comment();
                proof {
                    self.nothing();
                }
            } else {
                self.add_token(TokenType::Slash);
            }
        } else if c == '"' {
            self.string();
        } else if c == '\n' {
            proof {
                assert(newlines(self.source@, self.start as int, self.start as int) == 0);
            }
            self.new_line();
            proof {
                self.nothing();
            }
        } else if is_digit(c) {
            self.number(number);
        } else if c.is_whitespace() {
            proof {
                self.nothing();
            }
        } else if is_ident_char(c) {
            self.identifier();
        } else {
            let mut message = "Unexpected character: ".to_string();
            message.push(c);
            self.error(message);
        }
    }

    /// Emits nothing; the views of what was emitted stay as they are.
    proof fn nothing(&self)
        ensures
            forall|read: ReadModel, lexeme: Seq<char>, line: u32|
                views(self.tokens@) == views(self.tokens@) + #[trigger] step_tokens(
                    Found::Skip,
                    lexeme,
                    line,
                    read,
                ),
            forall|first: char, line: u32|
                diagnostic_views(self.diagnostics@) == diagnostic_views(self.diagnostics@)
                    + #[trigger] step_errors(Found::Skip, first, line),
    {
        assert forall|read: ReadModel, lexeme: Seq<char>, line: u32|
            views(self.tokens@) == views(self.tokens@) + #[trigger] step_tokens(
                Found::Skip,
                lexeme,
                line,
                read,
            ) by {
            assert(views(self.tokens@) + Seq::<TokenView>::empty() =~= views(self.tokens@));
        }
        assert forall|first: char, line: u32|
            diagnostic_views(self.diagnostics@) == diagnostic_views(self.diagnostics@)
                + #[trigger] step_errors(Found::Skip, first, line) by {
            assert(diagnostic_views(self.diagnostics@) + Seq::<DiagnosticView>::empty()
                =~= diagnostic_views(self.diagnostics@));
        }
    }

    /// Records a lexical error at the line reached.
    fn error(&mut self, message: String)
        ensures
            final(self).source == old(self).source,
            final(self).tokens == old(self).tokens,
            final(self).start == old(self).start,
            final(self).current == old(self).current,
            final(self).line == old(self).line,
            final(self).column == old(self).column,
            diagnostic_views(final(self).diagnostics@) == diagnostic_views(
                old(self).diagnostics@,
            ).push(
                DiagnosticView {
                    line: old(self).line,
                    column: old(self).column,
                    log_level: LogLevel::Error,
                    location: Seq::empty(),
                    message: message@,
                },
            ),
    {
        self.diagnostics.push(
            Diagnostic {
                line: self.line,
                column: self.column,
                log_level: LogLevel::Error,
                location: String::new(),
                message,
            },
        );
        assert(diagnostic_views(self.diagnostics@) =~= diagnostic_views(
            old(self).diagnostics@,
        ).push(self.diagnostics@.last()@));
    }

    /// A string literal, after its opening quote.
    fn string(&mut self)
        requires
            old(self).wf(),
            old(self).current == old(self).start + 1,
        ensures
            final(self).wf(),
            final(self).source == old(self).source,
            final(self).start == old(self).start,
            ({
                let source = old(self).source@;
                let inside = run_len(source, old(self).current as int, Run::Quoted);
                let close = old(self).current + inside;
                let line = bump(old(self).line, newlines(source, old(self).current as int, close));
                &&& final(self).line == line
                &&& if close < source.len() {
                    &&& final(self).current == close + 1
                    &&& final(self).diagnostics == old(self).diagnostics
                    &&& views(final(self).tokens@) == views(old(self).tokens@).push(
                        TokenView {
                            token: TokenKind::String(
                                source.subrange(old(self).current as int, close),
                            ),
                            lexeme: source.subrange(old(self).start as int, close + 1),
                            line,
                            column: 1,
                        },
                    )
                } else {
                    &&& final(self).current == close
                    &&& final(self).tokens == old(self).tokens
                    &&& diagnostic_views(final(self).diagnostics@) == diagnostic_views(
                        old(self).diagnostics@,
                    ).push(lexical_error(line, "Unterminated string."@))
                }
            }),
    {
        let ghost from = self.current as int;
        while !self.is_at_end() && self.peek(0) != '"'
            invariant
                self.wf(),
                self.moved_from(old(self)),
                from == old(self).current,
                from <= self.current,
                run_len(self.source@, from, Run::Quoted) == (self.current - from) + run_len(
                    self.source@,
                    self.current as int,
                    Run::Quoted,
                ),
                self.line == bump(old(self).line, newlines(self.source@, from, self.current as int)),
            decreases self.source.len() - self.current,
        {
            if self.peek(0) == '\n' {
                self.new_line();
            }
            self.advance();
        }
        if self.is_at_end() {
            self.error("Unterminated string.".to_string());
            return ;
        }
        self.advance();
        let value = text_of(&self.source, self.start + 1, self.current - 1);
        self.add_token(TokenType::String(value));
    }

    /// A number literal, after its first digit.
    fn number<F: Fn(&str) -> u64>(&mut self, number: &F)
        requires
            old(self).wf(),
            old(self).current == old(self).start + 1,
            digit(old(self).source@[old(self).start as int]),
            forall|text: &str| number_literal(text@) ==> call_requires(*number, (text,)),
        ensures
            final(self).wf(),
            final(self).source == old(self).source,
            final(self).start == old(self).start,
            final(self).line == old(self).line,
            final(self).diagnostics == old(self).diagnostics,
            final(self).current == old(self).current + number_extra(
                old(self).source@,
                old(self).start as int,
            ),
            forall|read: ReadModel|
                reads(number, read) ==> views(final(self).tokens@) == views(old(self).tokens@)
                    + #[trigger] step_tokens(
                    Found::Number,
                    old(self).source@.subrange(old(self).start as int, final(self).current as int),
                    final(self).line,
                    read,
                ),
            final(self).tokens.len() == old(self).tokens.len() + 1,
            views(final(self).tokens@).drop_last() == views(old(self).tokens@),
            read_by(number, views(final(self).tokens@).last()),
            outline(views(final(self).tokens@).last()) == (TokenView {
                token: TokenKind::Number(0),
                lexeme: old(self).source@.subrange(
                    old(self).start as int,
                    final(self).current as int,
                ),
                line: final(self).line,
                column: 1,
            }),
    {
        self.take_run(Run::Digits);
        if self.peek(0) == '.' && is_digit(self.peek(1)) {
            self.advance();
            self.take_run(Run::Digits);
        }
        let lexeme = text_of(&self.source, self.start, self.current);
        proof {
            number_is_literal(self.source@, self.start as int);
        }
        let text = lexeme.as_str();
        let bits = number(text);
        let ghost witness = text;
        let ghost before = self.tokens@;
        self.tokens.push(Token::new(TokenType::Number(bits), lexeme, self.line, self.column));
        proof {
            assert(views(self.tokens@) =~= views(before).push(self.tokens@.last()@));
            assert(views(self.tokens@).drop_last() =~= views(before));
            assert(views(self.tokens@).last() == self.tokens@.last()@);
            assert(self.tokens@.last()@.token == TokenKind::Number(bits));
            assert(witness@ == self.tokens@.last()@.lexeme);
            assert(call_ensures(*number, (witness,), bits));
            let token = views(self.tokens@).last();
            assert(witness@ == token.lexeme && call_ensures(
                *number,
                (witness,),
                token.token->Number_0,
            ));
            assert(read_by(number, token));
        }
        assert forall|read: ReadModel| reads(number, read) implies views(self.tokens@) == views(
            old(self).tokens@,
        ) + #[trigger] step_tokens(
            Found::Number,
            old(self).source@.subrange(old(self).start as int, self.current as int),
            self.line,
            read,
        ) by {
            assert(views(self.tokens@) =~= views(before).push(self.tokens@.last()@));
            assert(views(before).push(self.tokens@.last()@) =~= views(before) + seq![
                self.tokens@.last()@,
            ]);
        }
    }

    /// An identifier or a reserved word, after its first character.
    fn identifier(&mut self)
        requires
            old(self).wf(),
            old(self).current == old(self).start + 1,
        ensures
            final(self).wf(),
            final(self).source == old(self).source,
            final(self).start == old(self).start,
            final(self).line == old(self).line,
            final(self).diagnostics == old(self).diagnostics,
            final(self).current == old(self).current + run_len(
                old(self).source@,
                old(self).current as int,
                Run::Word,
            ),
            ({
                let word = old(self).source@.subrange(
                    old(self).start as int,
                    final(self).current as int,
                );
                views(final(self).tokens@) == views(old(self).tokens@).push(
                    TokenView {
                        token: match keyword(word) {
                            Some(kind) => kind,
                            None => TokenKind::Identifier,
                        },
                        lexeme: word,
                        line: old(self).line,
                        column: 1,
                    },
                )
            }),
    {
        self.take_run(Run::Word);
        let text = text_of(&self.source, self.start, self.current);
        let token = match lookup(&text) {
            Some(kind) => kind,
            None => TokenType::Identifier,
        };
        self.add_token(token);
    }

    /// The inside of a block comment, after its `/*`.
    fn block_comment(&mut self)
        requires
            old(self).wf(),
        ensures
            final(self).wf(),
            final(self).moved_from(old(self)),
            ({
                let source = old(self).source@;
                let inside = comment_len(source, old(self).current as int);
                &&& final(self).current == old(self).current + inside
                &&& final(self).line == bump(
                    old(self).line,
                    newlines(source, old(self).current as int, old(self).current + inside),
                )
            }),
    {
        let ghost from = self.current as int;
        while !self.is_at_end() && !(self.peek(0) == '*' && self.peek(1) == '/')
            invariant
                self.wf(),
                self.moved_from(old(self)),
                from == old(self).current,
                from <= self.current,
                comment_len(self.source@, from) == (self.current - from) + comment_len(
                    self.source@,
                    self.current as int,
                ),
                self.line == bump(old(self).line, newlines(self.source@, from, self.current as int)),
            decreases self.source.len() - self.current,
        {
            if self.peek(0) == '\n' {
                self.new_line();
            }
            self.advance();
        }
        if !self.is_at_end() {
            self.advance();
            self.advance();
            assert(newlines(self.source@, from, self.current as int) == newlines(
                self.source@,
                from,
                self.current - 2,
            )) by {
                assert(newlines(self.source@, from, self.current - 1) == newlines(
                    self.source@,
                    from,
                    self.current - 2,
                ));
            }
        }
    }

    /// Reads on while the characters stand in the run.
    fn take_run(&mut self, run: Run)
        requires
            old(self).wf(),
        ensures
            final(self).wf(),
            final(self).moved_from(old(self)),
            final(self).line == old(self).line,
            final(self).current == old(self).current + run_len(
                old(self).source@,
                old(self).current as int,
                run,
            ),
    {
        let ghost from = self.current as int;
        while !self.is_at_end() && in_run(run, self.peek(0))
            invariant
                self.wf(),
                self.moved_from(old(self)),
                self.line == old(self).line,
                from == old(self).current,
                from <= self.current,
                run_len(self.source@, from, run) == (self.current - from) + run_len(
                    self.source@,
                    self.current as int,
                    run,
                ),
            decreases self.source.len() - self.current,
        {
            self.advance();
        }
    }

    fn is_at_end(&self) -> (out: bool)
        ensures
            out == (self.current >= self.source.len()),
    {
        self.current >= self.source.len()
    }

    fn advance(&mut self) -> (out: char)
        requires
            old(self).wf(),
            old(self).current < old(self).source.len(),
        ensures
            final(self).wf(),
            final(self).moved_from(old(self)),
            final(self).line == old(self).line,
            final(self).current == old(self).current + 1,
            out == old(self).source@[old(self).current as int],
    {
        let out = self.source[self.current];
        self.current += 1;
        out
    }

    /// Emits a token of the given kind for the lexeme read.
    fn add_token(&mut self, token: TokenType)
        requires
            old(self).wf(),
        ensures
            final(self).wf(),
            final(self).source == old(self).source,
            final(self).diagnostics == old(self).diagnostics,
            final(self).start == old(self).start,
            final(self).current == old(self).current,
            final(self).line == old(self).line,
            views(final(self).tokens@) == views(old(self).tokens@).push(
                TokenView {
                    token: token@,
                    lexeme: old(self).source@.subrange(
                        old(self).start as int,
                        old(self).current as int,
                    ),
                    line: old(self).line,
                    column: 1,
                },
            ),
    {
        let text = text_of(&self.source, self.start, self.current);
        self.tokens.push(Token::new(token, text, self.line, self.column));
        assert(views(self.tokens@) =~= views(old(self).tokens@).push(self.tokens@.last()@));
    }

    /// The character `lookahead` places on, or NUL past the end.
    fn peek(&self, lookahead: usize) -> (out: char)
        requires
            self.wf(),
        ensures
            out == at(self.source@, self.current + lookahead),
    {
        if lookahead < self.source.len() - self.current {
            self.source[self.current + lookahead]
        } else {
            '\0'
        }
    }

    /// Reads the next character if it is the expected one.
    fn match_next(&mut self, expected: char) -> (out: bool)
        requires
            old(self).wf(),
            expected != '\0',
        ensures
            final(self).wf(),
            final(self).moved_from(old(self)),
            final(self).line == old(self).line,
            out == (at(old(self).source@, old(self).current as int) == expected),
            final(self).current == if out {
                old(self).current + 1
            } else {
                old(self).current as int
            },
    {
        if self.is_at_end() || self.peek(0) != expected {
            return false;
        }
        self.current += 1;
        true
    }

    fn new_line(&mut self)
        requires
            old(self).wf(),
        ensures
            final(self).wf(),
            final(self).moved_from(old(self)),
            final(self).current == old(self).current,
            final(self).line == bump(old(self).line, 1),
    {
        if self.line < u32::MAX {
            self.line += 1;
        }
        self.column = 1;
    }
}

fn in_run(run: Run, c: char) -> (out: bool)
    ensures
        out == run.holds(c),
{
    match run {
        Run::Digits => is_digit(c),
        Run::Word => is_ident_char(c),
        Run::Line => c != '\n',
        Run::Quoted => c != '"',
    }
}

fn is_word(text: &String, word: &str) -> (out: bool)
    ensures
        out == (text@ == word@),
{
    *text == word.to_string()
}

/// Looks a word up among the reserved words.
pub fn lookup(text: &String) -> (out: Option<TokenType>)
    ensures
        match out {
            Some(kind) => keyword(text@) == Some(kind@),
            None => keyword(text@) is None,
        },
{
    if is_word(text, "and") {
        Some(TokenType::And)
    } else if is_word(text, "class") {
        Some(TokenType::Class)
    } else if is_word(text, "else") {
        Some(TokenType::Else)
    } else if is_word(text, "false") {
        Some(TokenType::False)
    } else if is_word(text, "for") {
        Some(TokenType::For)
    } else if is_word(text, "fn") {
        Some(TokenType::Fn)
    } else if is_word(text, "if") {
        Some(TokenType::If)
    } else if is_word(text, "null") {
        Some(TokenType::Null)
    } else if is_word(text, "or") {
        Some(TokenType::Or)
    } else if is_word(text, "print") {
        Some(TokenType::Print)
    } else if is_word(text, "return") {
        Some(TokenType::Return)
    } else if is_word(text, "super") {
        Some(TokenType::Super)
    } else if is_word(text, "self") {
        Some(TokenType::_Self)
    } else if is_word(text, "true") {
        Some(TokenType::True)
    } else if is_word(text, "let") {
        Some(TokenType::Let)
    } else if is_word(text, "while") {
        Some(TokenType::While)
    } else if is_word(text, "inherits") {
        Some(TokenType::Inherits)
    } else {
        None
    }
}

} // verus!

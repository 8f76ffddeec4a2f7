//! What holds of a scan whatever the text is.
use vstd::prelude::*;
use crate::error::DiagnosticView;
use crate::number::ReadModel;
use crate::scanner::scanner::at;
use crate::scanner::scanner::blank;
use crate::scanner::scanner::bump;
use crate::scanner::scanner::comparison;
use crate::scanner::scanner::lexical_error;
use crate::scanner::scanner::keyword;
use crate::scanner::scanner::newlines;
use crate::scanner::scanner::number_is_literal;
use crate::scanner::scanner::number_literal;
use crate::scanner::scanner::outline;
use crate::scanner::scanner::outlines;
use crate::scanner::scanner::run_bounded;
use crate::scanner::scanner::step_bounded;
use crate::scanner::scanner::punctuation;
use crate::scanner::scanner::run_len;
use crate::scanner::scanner::scan;
use crate::scanner::scanner::scan_from;
use crate::scanner::scanner::sentinel;
use crate::scanner::scanner::step;
use crate::scanner::scanner::step_tokens;
use crate::scanner::scanner::Run;
use crate::scanner::scanner::Scanned;
use crate::scanner::token::TokenView;
use crate::scanner::token_type::TokenKind;
use crate::text::digit;
use crate::text::ident_char;
use crate::text::whitespace;

verus! {

/// The tokens of a scan end in the sentinel, and the sentinel stands nowhere
/// else: there is always at least one token.
pub proof fn ends_in_sentinel(source: Seq<char>, pos: int, line: u32, read: ReadModel)
    ensures
        scan_from(source, pos, line, read).tokens.len() >= 1,
        scan_from(source, pos, line, read).tokens.last().token is Eof,
        scan_from(source, pos, line, read).tokens.last().lexeme.len() == 0,
        forall|k: int|
            0 <= k < scan_from(source, pos, line, read).tokens.len() - 1 ==> !(#[trigger] scan_from(
                source,
                pos,
                line,
                read,
            ).tokens[k].token is Eof),
    decreases
        (if pos < source.len() {
            source.len() - pos
        } else {
            0
        }),
{
    if 0 <= pos < source.len() {
        let taken = step(source, pos);
        let end = pos + 1 + taken.extra;
        let reached = bump(line, taken.lines);
        ends_in_sentinel(source, end, reached, read);
        let first = step_tokens(taken.found, source.subrange(pos, end), reached, read);
        let rest = scan_from(source, end, reached, read).tokens;
        let all = scan_from(source, pos, line, read).tokens;
        assert(all == first + rest);
        assert(first.len() <= 1);
        assert forall|k: int| 0 <= k < all.len() - 1 implies !(#[trigger] all[k].token is Eof) by {
            if k < first.len() {
                assert(all[k] == first[k]);
            } else {
                assert(all[k] == rest[k - first.len()]);
            }
        }
    }
}

/// The lines of the tokens never go down, and none lies before the line that
/// the scan began at.
pub proof fn lines_never_decrease(source: Seq<char>, pos: int, line: u32, read: ReadModel)
    ensures
        forall|k: int|
            0 <= k < scan_from(source, pos, line, read).tokens.len() ==> line <= (#[trigger] scan_from(
                source,
                pos,
                line,
                read,
            ).tokens[k]).line,
        forall|j: int, k: int|
            0 <= j <= k < scan_from(source, pos, line, read).tokens.len() ==> (#[trigger] scan_from(
                source,
                pos,
                line,
                read,
            ).tokens[j]).line <= (#[trigger] scan_from(source, pos, line, read).tokens[k]).line,
    decreases
        (if pos < source.len() {
            source.len() - pos
        } else {
            0
        }),
{
    if 0 <= pos < source.len() {
        let taken = step(source, pos);
        let end = pos + 1 + taken.extra;
        let reached = bump(line, taken.lines);
        lines_never_decrease(source, end, reached, read);
        let first = step_tokens(taken.found, source.subrange(pos, end), reached, read);
        let rest = scan_from(source, end, reached, read).tokens;
        let all = scan_from(source, pos, line, read).tokens;
        assert(all == first + rest);
        assert(first.len() <= 1);
        assert forall|k: int| 0 <= k < all.len() implies line <= (#[trigger] all[k]).line by {
            if k < first.len() {
                assert(all[k] == first[k]);
            } else {
                assert(all[k] == rest[k - first.len()]);
            }
        }
        assert forall|j: int, k: int| 0 <= j <= k < all.len() implies (#[trigger] all[j]).line <= (
        #[trigger] all[k]).line by {
            if k < first.len() {
                assert(all[k] == first[k]);
                assert(all[j] == first[j]);
            } else if j < first.len() {
                assert(all[j] == first[j]);
                assert(all[k] == rest[k - first.len()]);
            } else {
                assert(all[j] == rest[j - first.len()]);
                assert(all[k] == rest[k - first.len()]);
            }
        }
    }
}

/// The kind of the token that a character makes when it stands alone.
pub open spec fn alone(c: char) -> Option<TokenKind> {
    if punctuation(c) is Some {
        punctuation(c)
    } else if comparison(c) is Some {
        Some(comparison(c).unwrap().0)
    } else if c == '/' {
        Some(TokenKind::Slash)
    } else {
        None
    }
}

/// A punctuation character scanned alone gives one token of its kind, whose
/// lexeme is that character again, and then the sentinel; nothing is
/// reported.
pub proof fn punctuation_round_trip(c: char, read: ReadModel)
    requires
        alone(c) is Some,
    ensures
        scan(seq![c], read) == (Scanned {
            tokens: seq![
                TokenView { token: alone(c).unwrap(), lexeme: seq![c], line: 1, column: 1 },
                sentinel(1),
            ],
            errors: Seq::empty(),
        }),
{
    let source = seq![c];
    let taken = step(source, 0);
    assert(at(source, 1) == '\0');
    assert(taken.extra == 0 && taken.lines == 0);
    let rest = scan_from(source, 1, 1, read);
    assert(rest.tokens == seq![sentinel(1)]);
    assert(source.subrange(0, 1) =~= source);
    let all = scan_from(source, 0, 1, read);
    assert(all.tokens =~= seq![
        TokenView { token: alone(c).unwrap(), lexeme: seq![c], line: 1, column: 1 },
        sentinel(1),
    ]);
    assert(all.errors =~= Seq::<DiagnosticView>::empty());
}

/// A run of characters none of which is a quote reaches the end of the text.
proof fn unquoted_to_the_end(source: Seq<char>, from: int)
    requires
        0 <= from <= source.len(),
        forall|k: int| from <= k < source.len() ==> source[k] != '"',
    ensures
        from + run_len(source, from, Run::Quoted) == source.len(),
    decreases source.len() - from,
{
    if from < source.len() {
        unquoted_to_the_end(source, from + 1);
    }
}

/// A string literal that is never closed takes the rest of the text: the
/// scan reports it once, at the line that the text ends on, and yields
/// nothing after it but the sentinel.
pub proof fn unterminated_string_ends_the_scan(
    source: Seq<char>,
    pos: int,
    line: u32,
    read: ReadModel,
)
    requires
        0 <= pos < source.len(),
        source[pos] == '"',
        forall|k: int| pos < k < source.len() ==> source[k] != '"',
    ensures
        ({
            let last = bump(line, newlines(source, pos + 1, source.len() as int));
            scan_from(source, pos, line, read) == (Scanned {
                tokens: seq![sentinel(last)],
                errors: seq![lexical_error(last, "Unterminated string."@)],
            })
        }),
{
    unquoted_to_the_end(source, pos + 1);
    let last = bump(line, newlines(source, pos + 1, source.len() as int));
    let taken = step(source, pos);
    assert(pos + 1 + taken.extra == source.len());
    let rest = scan_from(source, source.len() as int, last, read);
    assert(rest.tokens == seq![sentinel(last)]);
    let all = scan_from(source, pos, line, read);
    assert(all.tokens =~= seq![sentinel(last)]);
    assert(all.errors =~= seq![lexical_error(last, "Unterminated string."@)]);
}

/// A word: one character of an identifier or more, and nothing else.
pub open spec fn word(lexeme: Seq<char>) -> bool {
    lexeme.len() >= 1 && forall|k: int| 0 <= k < lexeme.len() ==> ident_char(#[trigger] lexeme[k])
}

/// Whether a lexeme is a way to write a token of the kind.
///
/// The sentinel has no text. A number is written as a number literal and
/// carries what `read` reads from it. A string is written as its text
/// between two quotes, and its text holds no quote. An identifier is a word
/// that is not reserved, a reserved word is itself, and punctuation is its
/// one or two characters.
pub open spec fn writes(lexeme: Seq<char>, kind: TokenKind, read: ReadModel) -> bool {
    match kind {
        TokenKind::Eof => lexeme.len() == 0,
        TokenKind::Number(x) => number_literal(lexeme) && x == read(lexeme),
        TokenKind::String(text) => {
            &&& lexeme == seq!['"'] + text + seq!['"']
            &&& forall|k: int| 0 <= k < text.len() ==> text[k] != '"'
        },
        TokenKind::Identifier => word(lexeme) && keyword(lexeme) is None,
        _ => {
            ||| lexeme.len() == 1 && alone(lexeme[0]) == Some(kind)
            ||| lexeme.len() == 2 && lexeme[1] == '=' && comparison(lexeme[0]) is Some
                && comparison(lexeme[0]).unwrap().1 == kind
            ||| word(lexeme) && keyword(lexeme) == Some(kind)
        },
    }
}

/// Every character of a run stands in the run, and the character behind
/// it, if there is one, does not.
proof fn run_holds(source: Seq<char>, from: int, run: Run)
    requires
        0 <= from <= source.len(),
    ensures
        forall|k: int| from <= k < from + run_len(source, from, run) ==> run.holds(source[k]),
        from + run_len(source, from, run) < source.len() ==> !run.holds(
            source[from + run_len(source, from, run)],
        ),
    decreases source.len() - from,
{
    if from < source.len() && run.holds(source[from]) {
        run_holds(source, from + 1, run);
    }
}

/// The token that a step emits is written by the lexeme of the step.
proof fn step_writes(source: Seq<char>, pos: int, line: u32, read: ReadModel)
    requires
        0 <= pos < source.len(),
    ensures
        ({
            let taken = step(source, pos);
            let lexeme = source.subrange(pos, pos + 1 + taken.extra);
            forall|k: int|
                0 <= k < step_tokens(taken.found, lexeme, line, read).len() ==> writes(
                    lexeme,
                    (#[trigger] step_tokens(taken.found, lexeme, line, read)[k]).token,
                    read,
                )
        }),
{
    let taken = step(source, pos);
    let end = pos + 1 + taken.extra;
    let lexeme = source.subrange(pos, end);
    let c = source[pos];
    step_bounded(source, pos);
    assert(lexeme[0] == c);
    if punctuation(c) is None && comparison(c) is None && c != '/' {
        if c == '"' {
            let inside = run_len(source, pos + 1, Run::Quoted);
            let close = pos + 1 + inside;
            run_holds(source, pos + 1, Run::Quoted);
            run_bounded(source, pos + 1, Run::Quoted);
            if close < source.len() {
                let text = source.subrange(pos + 1, close);
                assert(lexeme =~= seq!['"'] + text + seq!['"']);
            }
        } else if c != '\n' {
            if digit(c) {
                number_is_literal(source, pos);
            } else if !whitespace(c) && ident_char(c) {
                run_holds(source, pos + 1, Run::Word);
                assert(word(lexeme));
            }
        }
    } else if comparison(c) is Some && at(source, pos + 1) == '=' {
        assert(lexeme[1] == '=');
    }
}

/// Every token of a scan is written by its lexeme: its kind and what it
/// carries can be read off the lexeme, and scanning the lexeme of a
/// punctuation token alone gives the token again.
pub proof fn lexemes_write_their_tokens(source: Seq<char>, pos: int, line: u32, read: ReadModel)
    ensures
        forall|k: int|
            0 <= k < scan_from(source, pos, line, read).tokens.len() ==> writes(
                (#[trigger] scan_from(source, pos, line, read).tokens[k]).lexeme,
                scan_from(source, pos, line, read).tokens[k].token,
                read,
            ),
    decreases
        (if pos < source.len() {
            source.len() - pos
        } else {
            0
        }),
{
    if 0 <= pos < source.len() {
        let taken = step(source, pos);
        let end = pos + 1 + taken.extra;
        let reached = bump(line, taken.lines);
        lexemes_write_their_tokens(source, end, reached, read);
        step_writes(source, pos, reached, read);
        let first = step_tokens(taken.found, source.subrange(pos, end), reached, read);
        let rest = scan_from(source, end, reached, read).tokens;
        let all = scan_from(source, pos, line, read).tokens;
        assert(all == first + rest);
        assert forall|k: int| 0 <= k < all.len() implies writes(
            (#[trigger] all[k]).lexeme,
            all[k].token,
            read,
        ) by {
            if k < first.len() {
                assert(all[k] == first[k]);
                assert(first[k].lexeme == source.subrange(pos, end));
            } else {
                assert(all[k] == rest[k - first.len()]);
            }
        }
    }
}

/// A scan hangs on the reader in nothing but what its number tokens carry:
/// the errors are the same for every reader, and so are the tokens once
/// what the numbers carry is left out.
pub proof fn reader_only_fills_numbers(source: Seq<char>, pos: int, line: u32, read: ReadModel)
    ensures
        scan_from(source, pos, line, read).errors == scan_from(source, pos, line, blank()).errors,
        outlines(scan_from(source, pos, line, read).tokens) == scan_from(
            source,
            pos,
            line,
            blank(),
        ).tokens,
    decreases
        (if pos < source.len() {
            source.len() - pos
        } else {
            0
        }),
{
    if 0 <= pos < source.len() {
        let taken = step(source, pos);
        let end = pos + 1 + taken.extra;
        let reached = bump(line, taken.lines);
        reader_only_fills_numbers(source, end, reached, read);
        let lexeme = source.subrange(pos, end);
        let first = step_tokens(taken.found, lexeme, reached, read);
        let rest = scan_from(source, end, reached, read).tokens;
        assert(outlines(first) =~= step_tokens(taken.found, lexeme, reached, blank()));
        assert(outlines(first + rest) =~= outlines(first) + outlines(rest));
    } else {
        assert(outlines(seq![sentinel(line)]) =~= seq![sentinel(line)]);
    }
}

/// Tokens among which no number stands are told in full by their outlines.
pub proof fn outlines_without_numbers(tokens: Seq<TokenView>)
    requires
        forall|k: int| 0 <= k < tokens.len() ==> !(#[trigger] outlines(tokens)[k].token is Number),
    ensures
        outlines(tokens) == tokens,
{
    assert forall|k: int| 0 <= k < tokens.len() implies outlines(tokens)[k] == tokens[k] by {
        assert(outlines(tokens)[k] == outline(tokens[k]));
        assert(!(outlines(tokens)[k].token is Number));
        assert(!(tokens[k].token is Number));
    }
    assert(outlines(tokens) =~= tokens);
}

/// Whatever the reader of numbers does, a scan of one punctuation character
/// gives one token of its kind, whose lexeme is that character again, and
/// then the sentinel: these are the tokens whose outlines are those of the
/// scan.
pub proof fn punctuation_round_trip_for_any_reader(c: char, tokens: Seq<TokenView>)
    requires
        alone(c) is Some,
        outlines(tokens) == scan(seq![c], blank()).tokens,
    ensures
        tokens == seq![
            TokenView { token: alone(c).unwrap(), lexeme: seq![c], line: 1, column: 1 },
            sentinel(1),
        ],
        scan(seq![c], blank()).errors == Seq::<DiagnosticView>::empty(),
{
    punctuation_round_trip(c, blank());
    assert(tokens.len() == outlines(tokens).len());
    assert forall|k: int| 0 <= k < tokens.len() implies !(#[trigger] outlines(
        tokens,
    )[k].token is Number) by {}
    outlines_without_numbers(tokens);
}

/// A text that is one number literal scans to one number token, which
/// carries what the reader reads from the text, and then the sentinel;
/// nothing is reported.
pub proof fn number_round_trip(text: Seq<char>, read: ReadModel)
    requires
        number_literal(text),
    ensures
        scan(text, read) == (Scanned {
            tokens: seq![
                TokenView { token: TokenKind::Number(read(text)), lexeme: text, line: 1, column: 1 },
                sentinel(1),
            ],
            errors: Seq::empty(),
        }),
{
    let whole = run_len(text, 0, Run::Digits) as int;
    assert(whole == 1 + run_len(text, 1, Run::Digits));
    assert(digit(text[0]));
    let taken = step(text, 0);
    if whole == text.len() {
        assert(at(text, whole) == '\0');
    } else {
        let more = run_len(text, whole + 1, Run::Digits);
        assert(more == 1 + run_len(text, whole + 2, Run::Digits));
        assert(digit(text[whole + 1]));
    }
    assert(1 + taken.extra == text.len());
    assert(text.subrange(0, text.len() as int) =~= text);
    let rest = scan_from(text, text.len() as int, 1, read);
    assert(rest.tokens == seq![sentinel(1)]);
    let all = scan_from(text, 0, 1, read);
    assert(all.tokens =~= seq![
        TokenView { token: TokenKind::Number(read(text)), lexeme: text, line: 1, column: 1 },
        sentinel(1),
    ]);
    assert(all.errors =~= Seq::<DiagnosticView>::empty());
}

} // verus!

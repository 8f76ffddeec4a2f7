//! The front end and evaluator of a small expression language: a scanner, a
//! recursive-descent parser and a tree-walking interpreter, each reporting
//! what goes wrong at its place in the source.
//!
//! Numbers are IEEE-754 binary64 values, carried as bit patterns. The library
//! orders, compares and negates them; reading a literal, the four infix
//! operations and writing a number out are done by functions that the caller
//! hands in. Each contract says what comes out for whatever those functions
//! compute, and outright what does not hang on them.
use vstd::prelude::*;
use crate::error::diagnostic_views;
use crate::error::layout;
use crate::error::span_views;
use crate::error::DiagnosticView;
use crate::error::Error;
use crate::error::Span;
use crate::error::Style;
use crate::number::computes;
use crate::number::reads;
use crate::number::shows;
use crate::number::Arithmetic;
use crate::number::ArithmeticModel;
use crate::number::ReadModel;
use crate::number::ShowModel;
use crate::parser::at_end;
use crate::parser::expression;
use crate::parser::inside;
use crate::parser::interpreter::interpreted;
use crate::parser::interpreter::numberless_values;
use crate::parser::interpreter::shown_views;
use crate::parser::interpreter::Interpreter;
use crate::parser::laws::expression_advances;
use crate::parser::laws::numberless_tokens;
use crate::parser::laws::numberless_tokens_give_numberless_trees;
use crate::parser::remaining;
use crate::parser::syntax_error;
use crate::parser::Parser;
use crate::scanner::laws::outlines_without_numbers;
use crate::scanner::laws::reader_only_fills_numbers;
use crate::scanner::scanner::blank;
use crate::scanner::scanner::number_literal;
use crate::scanner::scanner::outlines;
use crate::scanner::scanner::scan;
use crate::scanner::scanner::Scanner;
use crate::scanner::token::views;
use crate::scanner::token::TokenView;

pub mod error;
pub mod number;
pub mod parser;
pub mod scanner;
pub mod text;

verus! {

/// One thing that a run has to show, in the order in which it arose.
#[derive(Debug)]
pub enum Event {
    /// The display form of a value.
    Printed(String),
    /// A diagnostic, laid out.
    Reported(Vec<Span>),
}

/// The mathematical value of an `Event`.
pub enum EventView {
    Printed(Seq<char>),
    Reported(Seq<(Seq<char>, Style)>),
}

impl View for Event {
    type V = EventView;

    open spec fn view(&self) -> EventView {
        match self {
            Event::Printed(text) => EventView::Printed(text@),
            Event::Reported(spans) => EventView::Reported(span_views(spans@)),
        }
    }
}

/// The values of a run of events, in order.
pub open spec fn event_views(events: Seq<Event>) -> Seq<EventView> {
    events.map_values(|e: Event| e@)
}

/// What a run of one unit of input has to show, and whether the unit failed.
#[derive(Debug)]
pub struct Transcript {
    pub events: Vec<Event>,
    pub failed: bool,
}

/// A diagnostic laid out against the source, as an event.
pub open spec fn reported(diagnostic: DiagnosticView, source: Seq<char>) -> EventView {
    EventView::Reported(
        layout(
            diagnostic.line,
            diagnostic.column,
            diagnostic.log_level,
            diagnostic.location,
            diagnostic.message,
            source,
        ),
    )
}

/// The lexical errors, each laid out.
pub open spec fn lexical_events(errors: Seq<DiagnosticView>, source: Seq<char>) -> Seq<EventView> {
    errors.map_values(|d: DiagnosticView| reported(d, source))
}

/// What interpreting one tree shows, as an event.
pub open spec fn shown_event(shown: Result<Seq<char>, Seq<(Seq<char>, Style)>>) -> EventView {
    match shown {
        Ok(text) => EventView::Printed(text),
        Err(spans) => EventView::Reported(spans),
    }
}

/// The events of parsing and evaluating from token `i` on: one for each
/// expression, up to the end of the tokens or to the first that fails to
/// parse, whose failure is the last event.
pub open spec fn evaluation_events(
    tokens: Seq<TokenView>,
    i: int,
    source: Seq<char>,
    model: ArithmeticModel,
    shown: ShowModel,
) -> Seq<EventView>
    decreases remaining(tokens, i),
{
    if !inside(tokens, i) || at_end(tokens, i) {
        Seq::empty()
    } else {
        let parsed = expression(tokens, i);
        match parsed.result {
            Err(failure) => seq![reported(syntax_error(tokens[failure.at], failure.message), source)],
            Ok(tree) => {
                proof {
                    expression_advances(tokens, i);
                }
                seq![shown_event(interpreted(tree, source, model, shown))] + evaluation_events(
                    tokens,
                    i + parsed.used,
                    source,
                    model,
                    shown,
                )
            },
        }
    }
}

/// All that a run of `source` shows: the lexical errors, then the events of
/// parsing and evaluating the tokens.
pub open spec fn transcript(
    source: Seq<char>,
    read: ReadModel,
    model: ArithmeticModel,
    shown: ShowModel,
) -> Seq<EventView> {
    let scanned = scan(source, read);
    lexical_events(scanned.errors, source) + evaluation_events(
        scanned.tokens,
        0,
        source,
        model,
        shown,
    )
}

/// No number literal stands in the text.
pub open spec fn numberless_text(source: Seq<char>) -> bool {
    numberless_tokens(scan(source, blank()).tokens)
}

/// What is known of a run with three functions handed in: that they compute
/// the three models, or that the text holds no number, so that the run hangs
/// on none of them and any models tell what it shows.
pub open spec fn known<R: Fn(&str) -> u64, A: Fn(Arithmetic, u64, u64) -> u64, S: Fn(u64) -> String>(
    read: &R,
    arith: &A,
    show: &S,
    numbers: ReadModel,
    model: ArithmeticModel,
    shown: ShowModel,
    source: Seq<char>,
) -> bool {
    (reads(read, numbers) && computes(arith, model) && shows(show, shown)) || numberless_text(
        source,
    )
}

/// Some event is a diagnostic.
pub open spec fn any_reported(events: Seq<EventView>) -> bool {
    exists|k: int| 0 <= k < events.len() && events[k] is Reported
}

/// Runs one unit of input: scans it, then parses and evaluates one
/// expression after the other until the tokens are used up or one fails to
/// parse. A runtime error ends only the expression it arose in. The unit has
/// failed if anything was reported.
///
/// The lexical errors come first and hang on none of the functions handed
/// in. The rest is told for what those functions compute, and for a text
/// without a number it is told outright.
pub fn run<R: Fn(&str) -> u64, A: Fn(Arithmetic, u64, u64) -> u64, S: Fn(u64) -> String>(
    source: String,
    read: &R,
    arith: &A,
    show: &S,
) -> (out: Transcript)
    requires
        forall|text: &str| number_literal(text@) ==> call_requires(*read, (text,)),
        forall|op: Arithmetic, a: u64, b: u64| call_requires(*arith, (op, a, b)),
        forall|bits: u64| call_requires(*show, (bits,)),
    ensures
        out.failed == any_reported(event_views(out.events@)),
        ({
            let errors = scan(source@, blank()).errors;
            &&& errors.len() <= out.events@.len()
            &&& event_views(out.events@).take(errors.len() as int) == lexical_events(
                errors,
                source@,
            )
        }),
        forall|numbers: ReadModel, model: ArithmeticModel, shown: ShowModel|
            known(read, arith, show, numbers, model, shown, source@) ==> event_views(out.events@)
                == #[trigger] transcript(source@, numbers, model, shown),
{
    let mut scanner = Scanner::new(source.clone());
    let tokens = scanner.scan_tokens(read);
    let mut events: Vec<Event> = Vec::new();
    let mut failed = false;
    let errors = scanner.diagnostics();
    let mut k: usize = 0;
    assert(event_views(events@) =~= Seq::<EventView>::empty());
    while k < errors.len()
        invariant
            k <= errors.len(),
            event_views(events@) == lexical_events(diagnostic_views(errors@).take(k as int), source@),
            failed == any_reported(event_views(events@)),
        decreases errors.len() - k,
    {
        let ghost before = event_views(events@);
        events.push(Event::Reported(errors[k].report(source.as_str())));
        failed = true;
        k += 1;
        assert(event_views(events@) =~= before.push(reported(errors@[k - 1]@, source@)));
        assert(diagnostic_views(errors@).take(k as int) =~= diagnostic_views(errors@).take(
            k - 1,
        ).push(errors@[k - 1]@));
        assert(event_views(events@) =~= lexical_events(
            diagnostic_views(errors@).take(k as int),
            source@,
        ));
        assert(event_views(events@)[k - 1] is Reported);
    }
    assert(diagnostic_views(errors@).take(k as int) =~= diagnostic_views(errors@));
    let ghost lexical = event_views(events@);
    proof {
        let scanned = scan(source@, blank());
        assert(Seq::<DiagnosticView>::empty() + scanned.errors =~= scanned.errors);
        assert(outlines(Seq::<TokenView>::empty()) + scanned.tokens =~= scanned.tokens);
        assert(lexical == lexical_events(scanned.errors, source@));
        assert(lexical.take(lexical.len() as int) =~= lexical);
        if numberless_text(source@) {
            outlines_without_numbers(views(tokens@));
        }
    }
    let mut parser = Parser::new(source.clone(), tokens);
    let interpreter = Interpreter;
    loop
        invariant_except_break
            parser.wf(),
            parser.reported() == Seq::<DiagnosticView>::empty(),
            inside(parser.input(), parser.position()),
            forall|model: ArithmeticModel, shown: ShowModel|
                (computes(arith, model) && shows(show, shown)) || numberless_tokens(views(tokens@))
                    ==> event_views(events@) + #[trigger] evaluation_events(
                    parser.input(),
                    parser.position(),
                    source@,
                    model,
                    shown,
                ) == lexical + evaluation_events(parser.input(), 0, source@, model, shown),
        invariant
            parser.input() == views(tokens@),
            lexical.len() <= events@.len(),
            event_views(events@).take(lexical.len() as int) == lexical,
            forall|op: Arithmetic, a: u64, b: u64| call_requires(*arith, (op, a, b)),
            forall|bits: u64| call_requires(*show, (bits,)),
            failed == any_reported(event_views(events@)),
        ensures
            forall|model: ArithmeticModel, shown: ShowModel|
                (computes(arith, model) && shows(show, shown)) || numberless_tokens(views(tokens@))
                    ==> event_views(events@) == lexical + #[trigger] evaluation_events(
                    parser.input(),
                    0,
                    source@,
                    model,
                    shown,
                ),
        decreases parser.input().len() - parser.position(),
    {
        let ghost at = parser.position();
        let ghost parsed = expression(parser.input(), at);
        let ghost before = event_views(events@);
        proof {
            expression_advances(parser.input(), at);
        }
        if parser.is_at_end() {
            assert forall|model: ArithmeticModel, shown: ShowModel|
                (computes(arith, model) && shows(show, shown)) || numberless_tokens(
                    views(tokens@),
                ) implies event_views(events@) == lexical + #[trigger] evaluation_events(
                parser.input(),
                0,
                source@,
                model,
                shown,
            ) by {
                assert(evaluation_events(parser.input(), at, source@, model, shown)
                    =~= Seq::<EventView>::empty());
                assert(before + Seq::<EventView>::empty() =~= before);
            }
            break ;
        }
        match parser.parse() {
            Some(expr) => {
                let shown_now = interpreter.interpret(expr, source.as_str(), arith, show);
                let ghost what = shown_views(shown_now);
                match shown_now {
                    Ok(text) => {
                        events.push(Event::Printed(text));
                    },
                    Err(spans) => {
                        events.push(Event::Reported(spans));
                        failed = true;
                    },
                }
                assert(event_views(events@) =~= before.push(shown_event(what)));
                assert(event_views(events@).take(lexical.len() as int) =~= before.take(
                    lexical.len() as int,
                ));
                proof {
                    if any_reported(before) {
                        let j = choose|j: int| 0 <= j < before.len() && before[j] is Reported;
                        assert(event_views(events@)[j] is Reported);
                    }
                    if what is Err {
                        assert(event_views(events@)[before.len() as int] is Reported);
                    }
                    if any_reported(event_views(events@)) && !any_reported(before) {
                        let j = choose|j: int|
                            0 <= j < event_views(events@).len() && event_views(
                                events@,
                            )[j] is Reported;
                        assert(j == before.len());
                    }
                    assert forall|model: ArithmeticModel, shown: ShowModel|
                        (computes(arith, model) && shows(show, shown)) || numberless_tokens(
                            views(tokens@),
                        ) implies event_views(events@) + #[trigger] evaluation_events(
                        parser.input(),
                        parser.position(),
                        source@,
                        model,
                        shown,
                    ) == lexical + evaluation_events(parser.input(), 0, source@, model, shown) by {
                        if numberless_tokens(views(tokens@)) {
                            numberless_tokens_give_numberless_trees(parser.input(), at);
                            numberless_values(parsed.result->Ok_0, model, model);
                        }
                        let rest = evaluation_events(
                            parser.input(),
                            parser.position(),
                            source@,
                            model,
                            shown,
                        );
                        assert(what == interpreted(parsed.result->Ok_0, source@, model, shown));
                        assert(evaluation_events(parser.input(), at, source@, model, shown)
                            == seq![shown_event(what)] + rest);
                        assert(before.push(shown_event(what)) + rest =~= before + (seq![
                            shown_event(what),
                        ] + rest));
                    }
                }
            },
            None => {
                let failures = parser.diagnostics();
                assert(failures@.len() == 1) by {
                    assert(diagnostic_views(failures@).len() == 1);
                }
                let spans = failures[0].report(source.as_str());
                events.push(Event::Reported(spans));
                failed = true;
                let ghost failure = parsed.result->Err_0;
                let ghost last = reported(
                    syntax_error(parser.input()[failure.at], failure.message),
                    source@,
                );
                assert(diagnostic_views(failures@)[0] == failures@[0]@);
                assert(event_views(events@) =~= before.push(last));
                assert(event_views(events@).take(lexical.len() as int) =~= before.take(
                    lexical.len() as int,
                ));
                assert(event_views(events@)[before.len() as int] is Reported);
                assert forall|model: ArithmeticModel, shown: ShowModel|
                    (computes(arith, model) && shows(show, shown)) || numberless_tokens(
                        views(tokens@),
                    ) implies event_views(events@) == lexical + #[trigger] evaluation_events(
                    parser.input(),
                    0,
                    source@,
                    model,
                    shown,
                ) by {
                    assert(evaluation_events(parser.input(), at, source@, model, shown) == seq![
                        last,
                    ]);
                    assert(before.push(last) =~= before + seq![last]);
                }
                break ;
            },
        }
    }
    let out = Transcript { events, failed };
    assert forall|numbers: ReadModel, model: ArithmeticModel, shown: ShowModel|
        known(read, arith, show, numbers, model, shown, source@) implies event_views(out.events@)
        == #[trigger] transcript(source@, numbers, model, shown) by {
        let scanned = scan(source@, numbers);
        reader_only_fills_numbers(source@, 0, 1, numbers);
        if reads(read, numbers) && computes(arith, model) && shows(show, shown) {
            assert(views(tokens@) == Seq::<TokenView>::empty() + scanned.tokens);
            assert(Seq::<TokenView>::empty() + scanned.tokens =~= scanned.tokens);
        } else {
            outlines_without_numbers(scanned.tokens);
            assert(views(tokens@) == scanned.tokens);
        }
    }
    out
}

} // verus!

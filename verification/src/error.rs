//! Diagnostics: what a positioned message is, and how one is laid out
//! against the source text. The layout is a run of styled spans; putting
//! colour on a terminal is left to whoever prints them.
use vstd::prelude::*;
use crate::text::chars_of;
use crate::text::decimal;
use crate::text::decimal_text;
use crate::text::text_of;

verus! {

/// How grave a diagnostic is.
#[derive(Clone, Copy, PartialEq, Eq, Structural, Debug)]
pub enum LogLevel {
    Error,
    Warning,
    Info,
}

/// How a span is to be shown.
#[derive(Clone, Copy, PartialEq, Eq, Structural, Debug)]
pub enum Style {
    Plain,
    Bold,
    BoldRed,
    BoldYellow,
    BoldBlue,
}

/// A piece of text with one style.
#[derive(Debug)]
pub struct Span {
    pub text: String,
    pub style: Style,
}

impl View for Span {
    type V = (Seq<char>, Style);

    open spec fn view(&self) -> (Seq<char>, Style) {
        (self.text@, self.style)
    }
}

/// The values of a run of spans, in order.
pub open spec fn span_views(spans: Seq<Span>) -> Seq<(Seq<char>, Style)> {
    spans.map_values(|s: Span| s@)
}

impl LogLevel {
    /// The word that names the level.
    pub open spec fn word(self) -> Seq<char> {
        match self {
            LogLevel::Error => "error"@,
            LogLevel::Warning => "warning"@,
            LogLevel::Info => "info"@,
        }
    }

    /// The style the word is shown in.
    pub open spec fn style(self) -> Style {
        match self {
            LogLevel::Error => Style::BoldRed,
            LogLevel::Warning => Style::BoldYellow,
            LogLevel::Info => Style::BoldBlue,
        }
    }

    /// The level as a styled word.
    pub fn to_span(&self) -> (out: Span)
        ensures
            out@ == (self.word(), self.style()),
    {
        match self {
            LogLevel::Error => Span { text: "error".to_string(), style: Style::BoldRed },
            LogLevel::Warning => Span { text: "warning".to_string(), style: Style::BoldYellow },
            LogLevel::Info => Span { text: "info".to_string(), style: Style::BoldBlue },
        }
    }
}

/// The first position at or after `from` that holds a newline, or the end
/// of the text if none does.
pub open spec fn line_end(source: Seq<char>, from: int) -> int
    decreases source.len() - from,
{
    if from >= source.len() || source[from] == '\n' {
        from
    } else {
        line_end(source, from + 1)
    }
}

/// A line without the carriage return that stood before its newline.
pub open spec fn without_return(line: Seq<char>, ended: bool) -> Seq<char> {
    if ended && line.len() > 0 && line.last() == '\r' {
        line.drop_last()
    } else {
        line
    }
}

/// The line `skip` lines after the one that starts at `from`; empty when the
/// text ends before it starts.
pub open spec fn line_from(source: Seq<char>, from: int, skip: nat) -> Seq<char>
    decreases skip,
{
    let end = line_end(source, from);
    if from < 0 || from >= source.len() {
        Seq::empty()
    } else if skip == 0 {
        without_return(source.subrange(from, end), end < source.len())
    } else {
        line_from(source, end + 1, (skip - 1) as nat)
    }
}

/// Line number `line` of the text, counted from 1 and without its line
/// ending; empty when the text has no such line.
pub open spec fn source_line(source: Seq<char>, line: u32) -> Seq<char> {
    if line == 0 {
        Seq::empty()
    } else {
        line_from(source, 0, (line - 1) as nat)
    }
}

/// The layout of one diagnostic: a heading with level, place and message, a
/// pointer line with line and column, and the offending source line.
pub open spec fn layout(
    line: u32,
    column: u32,
    log_level: LogLevel,
    location: Seq<char>,
    message: Seq<char>,
    source: Seq<char>,
) -> Seq<(Seq<char>, Style)> {
    seq![
        (log_level.word(), log_level.style()),
        (" "@, Style::Plain),
        (location, Style::Bold),
        (": "@, Style::Plain),
        (message, Style::Plain),
        ("\n "@, Style::Plain),
        ("-->"@, Style::BoldBlue),
        (" line "@, Style::Plain),
        (decimal(line as nat), Style::Bold),
        (" : column "@, Style::Plain),
        (decimal(column as nat), Style::Bold),
        ("\n   "@, Style::Plain),
        (decimal(line as nat), Style::BoldBlue),
        (" "@, Style::Plain),
        ("|"@, Style::BoldBlue),
        ("\t"@, Style::Plain),
        (source_line(source, line), Style::Plain),
        ("\n"@, Style::Plain),
    ]
}

/// The texts of the spans, one after the other.
pub open spec fn joined(spans: Seq<(Seq<char>, Style)>) -> Seq<char>
    decreases spans.len(),
{
    if spans.len() == 0 {
        Seq::empty()
    } else {
        joined(spans.drop_last()) + spans.last().0
    }
}

/// Lines with a newline between each two.
pub open spec fn joined_lines(lines: Seq<Seq<char>>) -> Seq<char>
    decreases lines.len(),
{
    if lines.len() == 0 {
        Seq::empty()
    } else if lines.len() == 1 {
        lines[0]
    } else {
        lines[0] + seq!['\n'] + joined_lines(lines.drop_first())
    }
}

/// A line as it can stand in a text: no newline in it, no carriage return
/// at its end.
pub open spec fn plain_line(line: Seq<char>) -> bool {
    &&& forall|k: int| 0 <= k < line.len() ==> line[k] != '\n'
    &&& line.len() > 0 ==> line.last() != '\r'
}

/// The end of a line is the same place in a text and in the text behind a
/// prefix.
proof fn line_end_shifts(prefix: Seq<char>, text: Seq<char>, from: int)
    requires
        0 <= from <= text.len(),
    ensures
        line_end(prefix + text, prefix.len() + from) == prefix.len() + line_end(text, from),
    decreases text.len() - from,
{
    let whole = prefix + text;
    if from < text.len() {
        assert(whole[prefix.len() + from] == text[from]);
        if text[from] != '\n' {
            line_end_shifts(prefix, text, from + 1);
        }
    }
}

/// A line is the same in a text and in the text behind a prefix.
proof fn line_from_shifts(prefix: Seq<char>, text: Seq<char>, from: int, skip: nat)
    requires
        0 <= from,
    ensures
        line_from(prefix + text, prefix.len() + from, skip) == line_from(text, from, skip),
    decreases skip,
{
    let whole = prefix + text;
    if from < text.len() {
        line_end_shifts(prefix, text, from);
        let end = line_end(text, from);
        line_end_bounded(text, from);
        if skip == 0 {
            assert(whole.subrange(prefix.len() + from, prefix.len() + end) =~= text.subrange(
                from,
                end,
            ));
        } else {
            line_from_shifts(prefix, text, end + 1, (skip - 1) as nat);
        }
    }
}

/// A line ends at or behind its start and inside the text.
proof fn line_end_bounded(text: Seq<char>, from: int)
    requires
        0 <= from <= text.len(),
    ensures
        from <= line_end(text, from) <= text.len(),
        forall|k: int| from <= k < line_end(text, from) ==> text[k] != '\n',
        line_end(text, from) < text.len() ==> text[line_end(text, from)] == '\n',
    decreases text.len() - from,
{
    if from < text.len() && text[from] != '\n' {
        line_end_bounded(text, from + 1);
    }
}

/// A first line without a newline ends where it is as long as it is.
proof fn first_line_ends(first: Seq<char>, rest: Seq<char>, from: int)
    requires
        0 <= from <= first.len(),
        forall|k: int| 0 <= k < first.len() ==> first[k] != '\n',
        rest.len() == 0 || rest[0] == '\n',
    ensures
        line_end(first + rest, from) == first.len(),
    decreases first.len() - from,
{
    let whole = first + rest;
    if from < first.len() {
        assert(whole[from] == first[from]);
        first_line_ends(first, rest, from + 1);
    } else if rest.len() > 0 {
        assert(whole[from] == rest[0]);
    }
}

/// Looking a line up gives the line back: in a text made of lines with a
/// newline between each two, line number `n + 1` is the line with index
/// `n`.
pub proof fn line_lookup(lines: Seq<Seq<char>>, n: int)
    requires
        0 <= n < lines.len(),
        n < u32::MAX,
        forall|k: int| 0 <= k < lines.len() ==> plain_line(#[trigger] lines[k]),
    ensures
        source_line(joined_lines(lines), (n + 1) as u32) == lines[n],
    decreases n,
{
    let text = joined_lines(lines);
    if lines.len() == 1 {
        first_line_ends(lines[0], Seq::empty(), 0);
        assert(lines[0] + Seq::<char>::empty() =~= lines[0]);
        assert(text.subrange(0, text.len() as int) =~= text);
    } else {
        let first = lines[0];
        let others = lines.drop_first();
        let tail = seq!['\n'] + joined_lines(others);
        assert(text =~= first + tail);
        first_line_ends(first, tail, 0);
        if n == 0 {
            assert(text.subrange(0, first.len() as int) =~= first);
        } else {
            assert forall|k: int| 0 <= k < others.len() implies plain_line(
                #[trigger] others[k],
            ) by {
                assert(others[k] == lines[k + 1]);
            }
            line_lookup(others, n - 1);
            let prefix = first + seq!['\n'];
            assert(text =~= prefix + joined_lines(others));
            line_from_shifts(prefix, joined_lines(others), 0, (n - 1) as nat);
            assert(line_from(text, (first.len() + 1) as int, (n - 1) as nat) == line_from(
                joined_lines(others),
                0,
                (n - 1) as nat,
            ));
        }
    }
}

fn find_line_end(source: &Vec<char>, from: usize) -> (end: usize)
    requires
        from <= source.len(),
    ensures
        end == line_end(source@, from as int),
        from <= end <= source.len(),
{
    let mut end = from;
    while end < source.len() && source[end] != '\n'
        invariant
            from <= end <= source.len(),
            line_end(source@, end as int) == line_end(source@, from as int),
        decreases source.len() - end,
    {
        end += 1;
    }
    end
}

/// Looks up line `line` of `source`.
pub fn line_text(source: &Vec<char>, line: u32) -> (out: String)
    ensures
        out@ == source_line(source@, line),
{
    if line == 0 {
        return String::new();
    }
    let mut from: usize = 0;
    let mut skip: u32 = line - 1;
    loop
        invariant
            from <= source.len(),
            line_from(source@, from as int, skip as nat) == source_line(source@, line),
        decreases skip,
    {
        if from >= source.len() {
            return String::new();
        }
        let end = find_line_end(source, from);
        if skip == 0 {
            let ended = end < source.len();
            if ended && end > from && source[end - 1] == '\r' {
                assert(source@.subrange(from as int, end as int).drop_last()
                    =~= source@.subrange(from as int, end - 1));
                return text_of(source, from, end - 1);
            }
            return text_of(source, from, end);
        }
        if end >= source.len() {
            assert(line_from(source@, end + 1, (skip - 1) as nat) == Seq::<char>::empty());
            return String::new();
        }
        from = end + 1;
        skip = skip - 1;
    }
}

fn span(text: &str, style: Style) -> (out: Span)
    ensures
        out@ == (text@, style),
{
    Span { text: text.to_string(), style }
}

/// Lays one diagnostic out against the source text.
pub fn report(
    line: u32,
    column: u32,
    log_level: LogLevel,
    location: &str,
    message: &str,
    source: &str,
) -> (out: Vec<Span>)
    ensures
        span_views(out@) == layout(line, column, log_level, location@, message@, source@),
{
    let text = chars_of(source);
    let mut out: Vec<Span> = Vec::new();
    out.push(log_level.to_span());
    out.push(span(" ", Style::Plain));
    out.push(span(location, Style::Bold));
    out.push(span(": ", Style::Plain));
    out.push(span(message, Style::Plain));
    out.push(span("\n ", Style::Plain));
    out.push(span("-->", Style::BoldBlue));
    out.push(span(" line ", Style::Plain));
    out.push(Span { text: decimal_text(line), style: Style::Bold });
    out.push(span(" : column ", Style::Plain));
    out.push(Span { text: decimal_text(column), style: Style::Bold });
    out.push(span("\n   ", Style::Plain));
    out.push(Span { text: decimal_text(line), style: Style::BoldBlue });
    out.push(span(" ", Style::Plain));
    out.push(span("|", Style::BoldBlue));
    out.push(span("\t", Style::Plain));
    out.push(Span { text: line_text(&text, line), style: Style::Plain });
    out.push(span("\n", Style::Plain));
    assert(span_views(out@) =~= layout(line, column, log_level, location@, message@, source@));
    out
}

/// The spans as one text, styles dropped.
pub fn plain(spans: &Vec<Span>) -> (out: String)
    ensures
        out@ == joined(span_views(spans@)),
{
    let mut out = String::new();
    let mut i: usize = 0;
    while i < spans.len()
        invariant
            i <= spans.len(),
            out@ == joined(span_views(spans@).take(i as int)),
        decreases spans.len() - i,
    {
        assert(span_views(spans@).take(i + 1).drop_last() =~= span_views(spans@).take(i as int));
        out.append(spans[i].text.as_str());
        i += 1;
    }
    assert(span_views(spans@).take(i as int) =~= span_views(spans@));
    out
}

/// Something that can be laid out as a diagnostic against the source text.
pub trait Error {
    fn report(&self, source: &str) -> Vec<Span>;
}

/// A positioned message of the scanner or the parser.
#[derive(Debug)]
pub struct Diagnostic {
    pub line: u32,
    pub column: u32,
    pub log_level: LogLevel,
    pub location: String,
    pub message: String,
}

/// The mathematical value of a `Diagnostic`.
pub struct DiagnosticView {
    pub line: u32,
    pub column: u32,
    pub log_level: LogLevel,
    pub location: Seq<char>,
    pub message: Seq<char>,
}

impl View for Diagnostic {
    type V = DiagnosticView;

    open spec fn view(&self) -> DiagnosticView {
        DiagnosticView {
            line: self.line,
            column: self.column,
            log_level: self.log_level,
            location: self.location@,
            message: self.message@,
        }
    }
}

/// The values of a run of diagnostics, in order.
pub open spec fn diagnostic_views(diagnostics: Seq<Diagnostic>) -> Seq<DiagnosticView> {
    diagnostics.map_values(|d: Diagnostic| d@)
}

impl Error for Diagnostic {
    fn report(&self, source: &str) -> (out: Vec<Span>)
        ensures
            span_views(out@) == layout(
                self.line,
                self.column,
                self.log_level,
                self.location@,
                self.message@,
                source@,
            ),
    {
        report(
            self.line,
            self.column,
            self.log_level,
            self.location.as_str(),
            self.message.as_str(),
            source,
        )
    }
}

} // verus!

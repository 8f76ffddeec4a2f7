use horba::error::line_text;
use horba::error::plain;
use horba::error::report;
use horba::error::Diagnostic;
use horba::error::Error;
use horba::error::LogLevel;
use horba::error::Span;
use horba::error::Style;
use horba::text::chars_of;
use horba::text::decimal_text;
use horba::text::text_of;

fn line(source: &str, n: u32) -> String {
    line_text(&source.chars().collect(), n)
}

#[test]
fn the_layout_of_a_diagnostic() {
    let spans = report(2, 1, LogLevel::Error, "at 'x'", "Expect expression.", "1 +\nx\n");
    let parts: Vec<(&str, Style)> = spans.iter().map(|s| (s.text.as_str(), s.style)).collect();
    assert_eq!(
        parts,
        vec![
            ("error", Style::BoldRed),
            (" ", Style::Plain),
            ("at 'x'", Style::Bold),
            (": ", Style::Plain),
            ("Expect expression.", Style::Plain),
            ("\n ", Style::Plain),
            ("-->", Style::BoldBlue),
            (" line ", Style::Plain),
            ("2", Style::Bold),
            (" : column ", Style::Plain),
            ("1", Style::Bold),
            ("\n   ", Style::Plain),
            ("2", Style::BoldBlue),
            (" ", Style::Plain),
            ("|", Style::BoldBlue),
            ("\t", Style::Plain),
            ("x", Style::Plain),
            ("\n", Style::Plain),
        ]
    );
    assert_eq!(
        plain(&spans),
        "error at 'x': Expect expression.\n --> line 2 : column 1\n   2 |\tx\n"
    );
}

#[test]
fn the_levels() {
    let word = |level: LogLevel| {
        let span = level.to_span();
        (span.text, span.style)
    };
    assert_eq!(word(LogLevel::Error), ("error".to_string(), Style::BoldRed));
    assert_eq!(word(LogLevel::Warning), ("warning".to_string(), Style::BoldYellow));
    assert_eq!(word(LogLevel::Info), ("info".to_string(), Style::BoldBlue));
    let spans = report(12, 345, LogLevel::Warning, "", "m", "");
    assert_eq!(plain(&spans), "warning : m\n --> line 12 : column 345\n   12 |\t\n");
}

#[test]
fn a_diagnostic_lays_itself_out() {
    let d = Diagnostic {
        line: 1,
        column: 1,
        log_level: LogLevel::Info,
        location: "at end".to_string(),
        message: "done".to_string(),
    };
    assert_eq!(
        plain(&d.report("a b")),
        "info at end: done\n --> line 1 : column 1\n   1 |\ta b\n"
    );
}

#[test]
fn lines_are_looked_up_by_number() {
    assert_eq!(line("a\nb\nc", 1), "a");
    assert_eq!(line("a\nb\nc", 2), "b");
    assert_eq!(line("a\nb\nc", 3), "c");
    assert_eq!(line("a\nb\nc", 4), "");
    assert_eq!(line("a\nb\nc", 0), "");
    assert_eq!(line("a\nb\nc", u32::MAX), "");
    assert_eq!(line("", 1), "");
    assert_eq!(line("a\n", 1), "a");
    assert_eq!(line("a\n", 2), "");
    assert_eq!(line("\n\nx", 1), "");
    assert_eq!(line("\n\nx", 2), "");
    assert_eq!(line("\n\nx", 3), "x");
}

#[test]
fn a_return_before_the_newline_is_dropped() {
    assert_eq!(line("a\r\nb\r\n", 1), "a");
    assert_eq!(line("a\r\nb\r\n", 2), "b");
    assert_eq!(line("a\r", 1), "a\r");
    assert_eq!(line("a\rb\n", 1), "a\rb");
    assert_eq!(line("\r\n", 1), "");
    for source in ["a\r\nb\r\n", "a\r", "a\rb\nc", "\r\n\r\n", "x\n\ny", ""] {
        for n in 1..5u32 {
            let expected = source.lines().nth(n as usize - 1).unwrap_or("");
            assert_eq!(line(source, n), expected);
        }
    }
}

#[test]
fn decimal_writing() {
    assert_eq!(decimal_text(0), "0");
    assert_eq!(decimal_text(7), "7");
    assert_eq!(decimal_text(10), "10");
    assert_eq!(decimal_text(4096), "4096");
    assert_eq!(decimal_text(u32::MAX), "4294967295");
    for n in [1u32, 9, 11, 99, 100, 101, 999, 1000, 123456789] {
        assert_eq!(decimal_text(n), n.to_string());
    }
}

#[test]
fn text_and_characters() {
    assert_eq!(chars_of("añb"), vec!['a', 'ñ', 'b']);
    assert_eq!(chars_of(""), Vec::<char>::new());
    let v = chars_of("hello");
    assert_eq!(text_of(&v, 1, 3), "el");
    assert_eq!(text_of(&v, 0, 5), "hello");
    assert_eq!(text_of(&v, 2, 2), "");
}

#[test]
fn spans_join_into_plain_text() {
    let spans = vec![
        Span { text: "a".to_string(), style: Style::Bold },
        Span { text: "".to_string(), style: Style::Plain },
        Span { text: "bc".to_string(), style: Style::BoldRed },
    ];
    assert_eq!(plain(&spans), "abc");
    assert_eq!(plain(&Vec::new()), "");
}

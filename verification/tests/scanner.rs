use horba::scanner::scanner::lookup;
use horba::scanner::scanner::Scanner;
use horba::scanner::token::Token;
use horba::scanner::token_type::TokenType;
use horba::text::is_digit;
use horba::text::is_ident_char;

fn read(text: &str) -> u64 {
    text.parse::<f64>().unwrap().to_bits()
}

fn scan(source: &str) -> (Vec<Token>, Vec<String>) {
    let mut scanner = Scanner::new(source.to_string());
    let tokens = scanner.scan_tokens(&read);
    let mut messages = Vec::new();
    for d in scanner.diagnostics() {
        assert_eq!(d.column, 1);
        assert_eq!(d.location, "");
        messages.push(format!("{}:{}", d.line, d.message));
    }
    (tokens, messages)
}

fn kinds(source: &str) -> Vec<TokenType> {
    let (tokens, messages) = scan(source);
    assert!(messages.is_empty());
    tokens.into_iter().map(|t| t.token).collect()
}

fn lexemes(source: &str) -> Vec<String> {
    let (tokens, _) = scan(source);
    tokens.into_iter().map(|t| t.lexeme).collect()
}

#[test]
fn empty_source_gives_the_sentinel_alone() {
    let (tokens, messages) = scan("");
    assert!(messages.is_empty());
    assert_eq!(tokens.len(), 1);
    assert_eq!(tokens[0].token, TokenType::Eof);
    assert_eq!(tokens[0].lexeme, "");
    assert_eq!(tokens[0].line, 1);
    assert_eq!(tokens[0].column, 1);
}

#[test]
fn punctuation_round_trip() {
    let all = [
        ('(', TokenType::LeftParen),
        (')', TokenType::RightParen),
        ('{', TokenType::LeftBrace),
        ('}', TokenType::RightBrace),
        (',', TokenType::Comma),
        ('.', TokenType::Dot),
        ('-', TokenType::Minus),
        ('+', TokenType::Plus),
        (';', TokenType::Semicolon),
        (':', TokenType::Colon),
        ('/', TokenType::Slash),
        ('*', TokenType::Star),
        ('?', TokenType::Question),
        ('!', TokenType::Bang),
        ('=', TokenType::Equal),
        ('<', TokenType::Less),
        ('>', TokenType::Greater),
    ];
    for (c, kind) in all {
        let (tokens, messages) = scan(&c.to_string());
        assert!(messages.is_empty());
        assert_eq!(tokens.len(), 2);
        assert_eq!(tokens[0].token, kind);
        assert_eq!(tokens[0].lexeme, c.to_string());
        assert_eq!(tokens[1].token, TokenType::Eof);
        let (again, _) = scan(&tokens[0].lexeme);
        assert_eq!(again[0].lexeme, c.to_string());
    }
}

#[test]
fn punctuation_does_not_hang_on_the_reader() {
    for (i, c) in "(){},.-+;*:?/!=<>".chars().enumerate() {
        let odd = |_: &str| 7u64 + i as u64;
        let mut scanner = Scanner::new(c.to_string());
        let tokens = scanner.scan_tokens(&odd);
        let (same, _) = scan(&c.to_string());
        assert_eq!(tokens.len(), 2);
        assert!(tokens[0].token == same[0].token);
        assert_eq!(tokens[0].lexeme, c.to_string());
        assert_eq!(tokens[0].line, 1);
        assert!(scanner.diagnostics().is_empty());
    }
}

#[test]
fn a_number_carries_what_the_reader_gives() {
    let odd = |text: &str| text.len() as u64;
    let mut scanner = Scanner::new("12.5 + 3".to_string());
    let tokens = scanner.scan_tokens(&odd);
    assert!(matches!(tokens[0].token, TokenType::Number(4)));
    assert!(matches!(tokens[1].token, TokenType::Plus));
    assert!(matches!(tokens[2].token, TokenType::Number(1)));
    assert_eq!(tokens[0].lexeme, "12.5");
}

#[test]
fn two_character_operators_take_the_longest_match() {
    assert_eq!(
        kinds("! != = == < <= > >="),
        vec![
            TokenType::Bang,
            TokenType::BangEqual,
            TokenType::Equal,
            TokenType::EqualEqual,
            TokenType::Less,
            TokenType::LessEqual,
            TokenType::Greater,
            TokenType::GreaterEqual,
            TokenType::Eof,
        ]
    );
    assert_eq!(kinds("==="), vec![TokenType::EqualEqual, TokenType::Equal, TokenType::Eof]);
    assert_eq!(lexemes("<=<"), vec!["<=", "<", ""]);
}

#[test]
fn unterminated_string_is_one_error_and_the_scan_ends() {
    let (tokens, messages) = scan("\"abc");
    assert_eq!(messages, vec!["1:Unterminated string.".to_string()]);
    assert_eq!(tokens.len(), 1);
    assert_eq!(tokens[0].token, TokenType::Eof);
    let (tokens, messages) = scan("1 \"a\nb");
    assert_eq!(messages, vec!["2:Unterminated string.".to_string()]);
    assert_eq!(tokens.len(), 2);
    assert_eq!(tokens[1].line, 2);
}

#[test]
fn strings_carry_their_text_and_count_lines() {
    let (tokens, messages) = scan("\"a b\" \"x\ny\" 1");
    assert!(messages.is_empty());
    assert_eq!(tokens[0].token, TokenType::String("a b".to_string()));
    assert_eq!(tokens[0].lexeme, "\"a b\"");
    assert_eq!(tokens[0].line, 1);
    assert_eq!(tokens[1].token, TokenType::String("x\ny".to_string()));
    assert_eq!(tokens[1].line, 2);
    assert_eq!(tokens[2].line, 2);
    assert_eq!(kinds("\"\""), vec![TokenType::String(String::new()), TokenType::Eof]);
    assert_eq!(lexemes("\"a\\\"b"), vec!["\"a\\\"", "b", ""]);
}

#[test]
fn numbers() {
    assert_eq!(kinds("12"), vec![TokenType::Number(12.0f64.to_bits()), TokenType::Eof]);
    assert_eq!(kinds("12.5"), vec![TokenType::Number(12.5f64.to_bits()), TokenType::Eof]);
    assert_eq!(
        kinds("1."),
        vec![TokenType::Number(1.0f64.to_bits()), TokenType::Dot, TokenType::Eof]
    );
    assert_eq!(
        kinds(".5"),
        vec![TokenType::Dot, TokenType::Number(5.0f64.to_bits()), TokenType::Eof]
    );
    assert_eq!(lexemes("1.2.3"), vec!["1.2", ".", "3", ""]);
    assert_eq!(lexemes("007"), vec!["007", ""]);
}

#[test]
fn digits_do_not_continue_an_identifier() {
    assert_eq!(
        kinds("ab1"),
        vec![TokenType::Identifier, TokenType::Number(1.0f64.to_bits()), TokenType::Eof]
    );
    assert_eq!(lexemes("a_b c"), vec!["a_b", "c", ""]);
    assert_eq!(lexemes("_x"), vec!["_x", ""]);
    assert_eq!(kinds("été"), vec![TokenType::Identifier, TokenType::Eof]);
}

#[test]
fn reserved_words() {
    assert_eq!(
        kinds("and class else false for fn if null or print return super self true let while"),
        vec![
            TokenType::And,
            TokenType::Class,
            TokenType::Else,
            TokenType::False,
            TokenType::For,
            TokenType::Fn,
            TokenType::If,
            TokenType::Null,
            TokenType::Or,
            TokenType::Print,
            TokenType::Return,
            TokenType::Super,
            TokenType::_Self,
            TokenType::True,
            TokenType::Let,
            TokenType::While,
            TokenType::Eof,
        ]
    );
    assert_eq!(kinds("inherits"), vec![TokenType::Inherits, TokenType::Eof]);
    assert_eq!(kinds("truth"), vec![TokenType::Identifier, TokenType::Eof]);
    assert_eq!(lookup(&"while".to_string()), Some(TokenType::While));
    assert_eq!(lookup(&"While".to_string()), None);
}

#[test]
fn comments_are_skipped() {
    assert_eq!(kinds("1 // two\n3").len(), 3);
    assert_eq!(lexemes("1 // two\n3"), vec!["1", "3", ""]);
    assert_eq!(lexemes("1 /* two */ 3"), vec!["1", "3", ""]);
    assert_eq!(lexemes("1 /* two"), vec!["1", ""]);
    assert_eq!(lexemes("/* a * / b */ c"), vec!["c", ""]);
    assert_eq!(lexemes("/**/1"), vec!["1", ""]);
    assert_eq!(lexemes("/*/ 1"), vec![""]);
    assert_eq!(lexemes("//"), vec![""]);
    let (tokens, _) = scan("/* a\nb\n*/ c // d\ne");
    assert_eq!(tokens[0].lexeme, "c");
    assert_eq!(tokens[0].line, 3);
    assert_eq!(tokens[1].lexeme, "e");
    assert_eq!(tokens[1].line, 4);
    assert_eq!(tokens[2].line, 4);
}

#[test]
fn slash_alone_is_division() {
    assert_eq!(
        kinds("8/2"),
        vec![
            TokenType::Number(8.0f64.to_bits()),
            TokenType::Slash,
            TokenType::Number(2.0f64.to_bits()),
            TokenType::Eof,
        ]
    );
    assert_eq!(lexemes("8 / 2"), vec!["8", "/", "2", ""]);
}

#[test]
fn unexpected_characters_are_reported_and_skipped() {
    let (tokens, messages) = scan("1 @ 2\n# 3");
    assert_eq!(
        messages,
        vec!["1:Unexpected character: @".to_string(), "2:Unexpected character: #".to_string()]
    );
    assert_eq!(tokens.len(), 4);
    assert_eq!(tokens[2].line, 2);
}

#[test]
fn lines_never_go_down_and_the_column_stays_one() {
    let (tokens, _) = scan("1\n2 3\n\n4 \"a\nb\" 5");
    let lines: Vec<u32> = tokens.iter().map(|t| t.line).collect();
    assert_eq!(lines, vec![1, 2, 2, 4, 5, 5, 5]);
    for pair in lines.windows(2) {
        assert!(pair[0] <= pair[1]);
    }
    for token in &tokens {
        assert_eq!(token.column, 1);
    }
}

#[test]
fn whitespace_of_every_kind_is_skipped() {
    assert_eq!(lexemes(" \t\r1\u{a0}2\u{3000}"), vec!["1", "2", ""]);
}

#[test]
fn a_second_scan_adds_another_sentinel() {
    let mut scanner = Scanner::new("1".to_string());
    let first = scanner.scan_tokens(&read);
    assert_eq!(first.len(), 2);
    let second = scanner.scan_tokens(&read);
    assert_eq!(second.len(), 3);
    assert_eq!(second[2].token, TokenType::Eof);
}

#[test]
fn character_classes() {
    assert!(is_ident_char('a'));
    assert!(is_ident_char('_'));
    assert!(is_ident_char('京'));
    assert!(!is_ident_char('1'));
    assert!(!is_ident_char(' '));
    assert!(is_digit('0'));
    assert!(is_digit('9'));
    assert!(!is_digit('a'));
    assert!(!is_digit('٣'));
}

#[test]
fn kinds_are_compared_without_their_payload() {
    let one = TokenType::Number(1.0f64.to_bits());
    let two = TokenType::Number(2.0f64.to_bits());
    assert!(one.same_kind(&two));
    assert!(one != two);
    assert!(one == TokenType::Number(1.0f64.to_bits()));
    assert!(TokenType::Number(f64::NAN.to_bits()) != TokenType::Number(f64::NAN.to_bits()));
    assert!(TokenType::Number(0.0f64.to_bits()) == TokenType::Number((-0.0f64).to_bits()));
    assert!(TokenType::String("a".to_string()).same_kind(&TokenType::String("b".to_string())));
    assert!(TokenType::String("a".to_string()) != TokenType::String("b".to_string()));
    assert!(!TokenType::Plus.same_kind(&TokenType::Minus));
    assert!(TokenType::Plus.same_kind(&TokenType::Plus));
    assert!(!one.same_kind(&TokenType::Identifier));
    let copy = one.clone();
    assert!(copy == one);
}

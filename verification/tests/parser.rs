use horba::parser::ast_printer::AstPrinter;
use horba::parser::ast_printer::Printer;
use horba::parser::expr::Expr;
use horba::parser::expr::Literal;
use horba::parser::Parser;
use horba::scanner::scanner::Scanner;
use horba::scanner::token::Token;
use horba::scanner::token_type::TokenType;

fn read(text: &str) -> u64 {
    text.parse::<f64>().unwrap().to_bits()
}

fn show(bits: u64) -> String {
    f64::from_bits(bits).to_string()
}

fn parser_for(source: &str) -> Parser {
    let mut scanner = Scanner::new(source.to_string());
    let tokens = scanner.scan_tokens(&read);
    Parser::new(source.to_string(), tokens)
}

fn shape(source: &str) -> String {
    let mut parser = parser_for(source);
    let expr = parser.parse().unwrap();
    assert!(parser.is_at_end());
    AstPrinter.print(&expr, &show)
}

/// The message and the label of place of the one failure, and the cursor.
fn failure(source: &str) -> (String, String, usize) {
    let mut parser = parser_for(source);
    let out = parser.parse();
    assert!(out.is_none());
    assert_eq!(parser.diagnostics().len(), 1);
    let d = &parser.diagnostics()[0];
    (d.message.clone(), d.location.clone(), parser.current())
}

#[test]
fn precedence_from_loose_to_tight() {
    assert_eq!(shape("1 + 2 * 3"), "(+ 1 (* 2 3))");
    assert_eq!(shape("1 * 2 + 3"), "(+ (* 1 2) 3)");
    assert_eq!(shape("1 < 2 == 3 > 4"), "(== (< 1 2) (> 3 4))");
    assert_eq!(shape("1 + 2 < 3 - 4"), "(< (+ 1 2) (- 3 4))");
    assert_eq!(shape("-1 * 2"), "(* (- 1) 2)");
    assert_eq!(shape("!1 == 2"), "(== (! 1) 2)");
    assert_eq!(shape("1 == 2 ? 3 : 4"), "(ternary (== 1 2) 3 4)");
    assert_eq!(shape("1 ? 2 : 3, 4"), "(ternary 1 2 (comma 3 4))");
    assert_eq!(shape("1, 2 ? 3 : 4"), "(comma 1 (ternary 2 3 4))");
}

#[test]
fn infix_levels_fold_to_the_left() {
    assert_eq!(shape("8 - 4 - 2"), "(- (- 8 4) 2)");
    assert_eq!(shape("8 / 4 * 2"), "(* (/ 8 4) 2)");
    assert_eq!(shape("1 == 2 != 3"), "(!= (== 1 2) 3)");
    assert_eq!(shape("1 < 2 <= 3 > 4 >= 5"), "(>= (> (<= (< 1 2) 3) 4) 5)");
    assert_eq!(shape("1, 2, 3"), "(comma (comma 1 2) 3)");
}

#[test]
fn prefix_operators_and_conditionals_fold_to_the_right() {
    assert_eq!(shape("!!true"), "(! (! true))");
    assert_eq!(shape("-!-1"), "(- (! (- 1)))");
    assert_eq!(shape("true ? 1 : false ? 2 : 3"), "(ternary true 1 (ternary false 2 3))");
    assert_eq!(shape("1 ? 2 ? 3 : 4 : 5"), "(ternary 1 (ternary 2 3 4) 5)");
    assert_eq!(shape("1 ? 2, 3 : 4"), "(ternary 1 (comma 2 3) 4)");
}

#[test]
fn groups_and_literals() {
    assert_eq!(shape("(1 + 2) * 3"), "(* (group (+ 1 2)) 3)");
    assert_eq!(shape("((1))"), "(group (group 1))");
    assert_eq!(shape("\"a b\""), "a b");
    assert_eq!(shape("null"), "null");
    assert_eq!(shape("true == false"), "(== true false)");
    assert_eq!(shape("1.5"), "1.5");
}

#[test]
fn nothing_to_parse_at_the_end() {
    let mut parser = parser_for("");
    assert!(parser.is_at_end());
    assert!(parser.parse().is_none());
    assert!(parser.diagnostics().is_empty());
    assert_eq!(parser.current(), 0);
    assert_eq!(parser.len(), 1);
    assert_eq!(parser_for("1 + 2").source(), "1 + 2");
}

#[test]
fn each_call_parses_one_expression() {
    let mut parser = parser_for("1 + 2 3 * 4 (5)");
    let first = parser.parse().unwrap();
    assert_eq!(AstPrinter.print(&first, &show), "(+ 1 2)");
    assert_eq!(parser.current(), 3);
    let second = parser.parse().unwrap();
    assert_eq!(AstPrinter.print(&second, &show), "(* 3 4)");
    assert_eq!(parser.current(), 6);
    let third = parser.parse().unwrap();
    assert_eq!(AstPrinter.print(&third, &show), "(group 5)");
    assert!(parser.is_at_end());
    assert!(parser.parse().is_none());
    assert!(parser.diagnostics().is_empty());
}

#[test]
fn a_token_that_starts_no_expression() {
    assert_eq!(failure(")"), ("Expect expression.".to_string(), "at ')'".to_string(), 1));
    assert_eq!(failure("1 + * 2"), ("Expect expression.".to_string(), "at '*'".to_string(), 3));
    assert_eq!(failure("while"), ("Expect expression.".to_string(), "at 'while'".to_string(), 1));
    assert_eq!(failure("x"), ("Expect expression.".to_string(), "at 'x'".to_string(), 1));
}

#[test]
fn an_expression_that_the_input_ends_in() {
    assert_eq!(failure("1 +"), ("Expect expression.".to_string(), "at end".to_string(), 2));
    assert_eq!(failure("-"), ("Expect expression.".to_string(), "at end".to_string(), 1));
    assert_eq!(failure("("), ("Expect expression.".to_string(), "at end".to_string(), 1));
    assert_eq!(failure("1 ? 2 :"), ("Expect expression.".to_string(), "at end".to_string(), 4));
    assert_eq!(failure("1,"), ("Expect expression.".to_string(), "at end".to_string(), 2));
}

#[test]
fn a_missing_token() {
    assert_eq!(
        failure("(1"),
        ("Expected ')' after expression.".to_string(), "at end".to_string(), 2)
    );
    assert_eq!(
        failure("(1 2)"),
        ("Expected ')' after expression.".to_string(), "at '2'".to_string(), 2)
    );
    assert_eq!(
        failure("1 ? 2"),
        (
            "Expect ':' after then branch of conditional expression.".to_string(),
            "at end".to_string(),
            3
        )
    );
    assert_eq!(
        failure("1 ? 2 ; 3"),
        (
            "Expect ':' after then branch of conditional expression.".to_string(),
            "at ';'".to_string(),
            3
        )
    );
}

#[test]
fn a_failure_carries_the_place_of_its_token() {
    let mut parser = parser_for("1 +\n\n )");
    assert!(parser.parse().is_none());
    let d = &parser.diagnostics()[0];
    assert_eq!(d.line, 3);
    assert_eq!(d.column, 1);
    assert_eq!(d.location, "at ')'");
}

#[test]
fn parsing_goes_on_behind_a_failure() {
    let mut parser = parser_for("(1 2 + 3");
    assert!(parser.parse().is_none());
    assert_eq!(parser.current(), 2);
    let next = parser.parse().unwrap();
    assert_eq!(AstPrinter.print(&next, &show), "(+ 2 3)");
    assert!(parser.is_at_end());
    assert_eq!(parser.diagnostics().len(), 1);
}

#[test]
fn every_attempt_before_the_end_moves_on() {
    for source in [") ) )", "+ + +", "1 ? ? ?", "( ( (", ": , ;", "1 2 3", "! ! !"] {
        let mut parser = parser_for(source);
        let mut steps = 0;
        while !parser.is_at_end() {
            let before = parser.current();
            parser.parse();
            assert!(parser.current() > before);
            assert!(parser.current() < parser.len());
            steps += 1;
            assert!(steps < 10);
        }
    }
}

#[test]
fn recovery_stops_behind_a_semicolon() {
    let mut parser = parser_for("1 + ; 2 3");
    parser.synchronise();
    assert_eq!(parser.current(), 3);
    let mut parser = parser_for("; 1");
    parser.synchronise();
    assert_eq!(parser.current(), 1);
}

#[test]
fn recovery_stops_before_a_new_construct() {
    let mut parser = parser_for("1 2 let 3");
    parser.synchronise();
    assert_eq!(parser.current(), 2);
    for word in ["class", "fn", "let", "for", "if", "while", "print", "return"] {
        let mut parser = parser_for(&format!("+ - {} 1", word));
        parser.synchronise();
        assert_eq!(parser.current(), 2);
        parser.synchronise();
        assert_eq!(parser.current(), 4);
    }
    let mut parser = parser_for("let 1");
    parser.synchronise();
    assert_eq!(parser.current(), 2);
}

#[test]
fn recovery_stops_at_the_end() {
    let mut parser = parser_for("1 2 3");
    parser.synchronise();
    assert_eq!(parser.current(), 3);
    assert!(parser.is_at_end());
    parser.synchronise();
    assert_eq!(parser.current(), 3);
    let mut parser = parser_for("");
    parser.synchronise();
    assert_eq!(parser.current(), 0);
    assert!(parser.diagnostics().is_empty());
}

#[test]
fn the_last_token_marks_the_end_whatever_it_is() {
    let tokens = vec![
        Token::new(TokenType::Number(1.0f64.to_bits()), "1".to_string(), 1, 1),
        Token::new(TokenType::Number(2.0f64.to_bits()), "2".to_string(), 1, 1),
    ];
    let mut parser = Parser::new(String::new(), tokens);
    let expr = parser.parse().unwrap();
    assert!(matches!(expr, Expr::Literal(Literal::Number(_))));
    assert!(parser.is_at_end());
    assert!(parser.parse().is_none());
    let tokens = vec![
        Token::new(TokenType::Minus, "-".to_string(), 1, 1),
        Token::new(TokenType::Number(2.0f64.to_bits()), "2".to_string(), 7, 1),
    ];
    let mut parser = Parser::new(String::new(), tokens);
    assert!(parser.parse().is_none());
    assert_eq!(parser.diagnostics()[0].location, "at '2'");
    assert_eq!(parser.diagnostics()[0].line, 7);
}

#[test]
fn the_printer_writes_the_sample() {
    assert_eq!(horba::parser::ast_printer::ast_test(&show), "(* (- 123) (group 45.67))");
}

#[test]
fn a_tree_without_numbers_is_printed_whatever_writes_numbers() {
    let odd = |_: u64| "?".to_string();
    let mut parser = parser_for("true ? \"a\" : (null, !false)");
    let expr = parser.parse().unwrap();
    assert_eq!(AstPrinter.print(&expr, &odd), AstPrinter.print(&expr, &show));
    assert_eq!(AstPrinter.print(&expr, &odd), "(ternary true a (group (comma null (! false))))");
}

#[test]
fn the_printer_as_a_visitor() {
    let mut parser = parser_for("1 ? \"a\" : (null, !false)");
    let expr = parser.parse().unwrap();
    let printer = Printer { printer: AstPrinter, show: &show };
    assert_eq!(expr.accept(&printer), "(ternary 1 a (group (comma null (! false))))");
    assert_eq!(AstPrinter.parenthesize("x", &vec!["a".to_string(), "b".to_string()]), "(x a b)");
    assert_eq!(AstPrinter.parenthesize("x", &Vec::new()), "(x)");
}

use horba::error::plain;
use horba::number::Arithmetic;
use horba::parser::expr::Expr;
use horba::parser::expr::Literal;
use horba::parser::interpreter::Interpreter;
use horba::parser::Parser;
use horba::run;
use horba::scanner::scanner::Scanner;
use horba::Event;

fn read(text: &str) -> u64 {
    text.parse::<f64>().unwrap().to_bits()
}

fn arith(op: Arithmetic, a: u64, b: u64) -> u64 {
    let x = f64::from_bits(a);
    let y = f64::from_bits(b);
    let z = match op {
        Arithmetic::Add => x + y,
        Arithmetic::Subtract => x - y,
        Arithmetic::Multiply => x * y,
        Arithmetic::Divide => x / y,
    };
    z.to_bits()
}

fn show(bits: u64) -> String {
    f64::from_bits(bits).to_string()
}

fn parse_one(source: &str) -> Expr {
    let mut scanner = Scanner::new(source.to_string());
    let tokens = scanner.scan_tokens(&read);
    assert!(scanner.diagnostics().is_empty());
    let mut parser = Parser::new(source.to_string(), tokens);
    let expr = parser.parse();
    assert!(parser.diagnostics().is_empty());
    assert!(parser.is_at_end());
    expr.unwrap()
}

fn value_of(source: &str) -> Literal {
    let expr = parse_one(source);
    match Interpreter.evaluate(&expr, &arith) {
        Ok(value) => value,
        Err(error) => panic!("{}", error.message),
    }
}

fn number(value: &Literal) -> f64 {
    match value {
        Literal::Number(bits) => f64::from_bits(*bits),
        other => panic!("not a number: {:?}", other),
    }
}

fn printed(events: &Vec<Event>) -> Vec<String> {
    let mut out = Vec::new();
    for event in events {
        match event {
            Event::Printed(text) => out.push(text.clone()),
            Event::Reported(spans) => out.push(format!("!{}", plain(spans))),
        }
    }
    out
}

#[test]
fn multiplication_binds_tighter_than_addition() {
    assert_eq!(number(&value_of("1 + 2 * 3")), 7.0);
    match parse_one("1 + 2 * 3") {
        Expr::Binary(sum) => {
            assert_eq!(sum.operator.lexeme, "+");
            assert!(matches!(*sum.left, Expr::Literal(_)));
            match *sum.right {
                Expr::Binary(product) => assert_eq!(product.operator.lexeme, "*"),
                other => panic!("{:?}", other),
            }
        }
        other => panic!("{:?}", other),
    }
}

#[test]
fn subtraction_folds_to_the_left() {
    assert_eq!(number(&value_of("8 - 4 - 2")), 2.0);
    match parse_one("8 - 4 - 2") {
        Expr::Binary(outer) => {
            assert!(matches!(*outer.left, Expr::Binary(_)));
            assert!(matches!(*outer.right, Expr::Literal(_)));
        }
        other => panic!("{:?}", other),
    }
}

#[test]
fn double_negation_of_true_is_true() {
    assert_eq!(value_of("!!true"), Literal::True);
    match parse_one("!!true") {
        Expr::Unary(outer) => assert!(matches!(*outer.expression, Expr::Unary(_))),
        other => panic!("{:?}", other),
    }
}

#[test]
fn nested_ternary_hangs_on_the_false_branch() {
    match parse_one("true ? 1 : false ? 2 : 3") {
        Expr::Ternary(outer) => {
            assert!(matches!(*outer.condition, Expr::Literal(Literal::True)));
            assert!(matches!(*outer.if_true, Expr::Literal(Literal::Number(_))));
            match *outer.if_false {
                Expr::Ternary(inner) => {
                    assert!(matches!(*inner.condition, Expr::Literal(Literal::False)));
                }
                other => panic!("{:?}", other),
            }
        }
        other => panic!("{:?}", other),
    }
    assert_eq!(number(&value_of("true ? 1 : false ? 2 : 3")), 1.0);
    assert_eq!(number(&value_of("false ? 1 : false ? 2 : 3")), 3.0);
    assert_eq!(number(&value_of("false ? 1 : true ? 2 : 3")), 2.0);
}

#[test]
fn comma_yields_its_right_side() {
    assert_eq!(number(&value_of("1 + 1, 2 + 2")), 4.0);
    assert_eq!(number(&value_of("1, 2, 3")), 3.0);
    match parse_one("1, 2, 3") {
        Expr::Comma(outer) => {
            assert!(matches!(*outer.expr, Expr::Comma(_)));
            assert!(matches!(*outer.next, Expr::Literal(_)));
        }
        other => panic!("{:?}", other),
    }
}

#[test]
fn adding_a_string_to_a_number_is_a_type_error() {
    let expr = parse_one("1 + \"a\"");
    let error = Interpreter.evaluate(&expr, &arith).unwrap_err();
    assert_eq!(error.message, "Expected Number type, got String.");
    assert_eq!(error.token.lexeme, "+");
    assert_eq!(error.to_text(), "Expected Number type, got String.");
    let again = parse_one("1 + 1");
    assert_eq!(number(&Interpreter.evaluate(&again, &arith).unwrap()), 2.0);
}

#[test]
fn the_left_operand_is_checked_first() {
    let expr = parse_one("null * \"a\"");
    let error = Interpreter.evaluate(&expr, &arith).unwrap_err();
    assert_eq!(error.message, "Expected Number type, got Null.");
    let expr = parse_one("true < 1");
    let error = Interpreter.evaluate(&expr, &arith).unwrap_err();
    assert_eq!(error.message, "Expected Number type, got Bool.");
}

#[test]
fn equality_compares_any_two_values() {
    assert_eq!(value_of("1 == \"1\""), Literal::False);
    assert_eq!(value_of("1 != \"1\""), Literal::True);
    assert_eq!(value_of("null == null"), Literal::True);
    assert_eq!(value_of("\"a\" == \"a\""), Literal::True);
    assert_eq!(value_of("\"a\" == \"b\""), Literal::False);
    assert_eq!(value_of("true == false"), Literal::False);
    assert_eq!(value_of("1.5 == 1.50"), Literal::True);
}

#[test]
fn grouping_goes_first() {
    assert_eq!(number(&value_of("(1 + 2) * 3")), 9.0);
}

#[test]
fn division_follows_the_floating_point_rules() {
    assert_eq!(number(&value_of("8 / 2")), 4.0);
    assert_eq!(number(&value_of("1 / 0")), f64::INFINITY);
    assert!(number(&value_of("0 / 0")).is_nan());
    assert_eq!(value_of("0 / 0 == 0 / 0"), Literal::False);
    assert_eq!(value_of("0 / 0 != 0 / 0"), Literal::True);
    assert_eq!(number(&value_of("0.1 + 0.2")), 0.1 + 0.2);
}

#[test]
fn ordering_of_numbers() {
    assert_eq!(value_of("1 < 2"), Literal::True);
    assert_eq!(value_of("2 < 1"), Literal::False);
    assert_eq!(value_of("2 <= 2"), Literal::True);
    assert_eq!(value_of("3 > 2"), Literal::True);
    assert_eq!(value_of("2 >= 3"), Literal::False);
    assert_eq!(value_of("0 / 0 < 1"), Literal::False);
    assert_eq!(value_of("0 / 0 >= 1"), Literal::False);
    assert_eq!(value_of("1 < 2 == true"), Literal::True);
}

#[test]
fn only_the_chosen_branch_is_evaluated() {
    assert_eq!(number(&value_of("true ? 1 : 2 + null")), 1.0);
    assert_eq!(number(&value_of("null ? 2 + null : 5")), 5.0);
    assert_eq!(number(&value_of("0 ? 1 : 2")), 1.0);
    assert_eq!(number(&value_of("\"\" ? 1 : 2")), 1.0);
}

#[test]
fn an_error_on_the_left_of_a_comma_is_raised() {
    let expr = parse_one("1 + null, 2");
    let error = Interpreter.evaluate(&expr, &arith).unwrap_err();
    assert_eq!(error.message, "Expected Number type, got Null.");
}

#[test]
fn unary_operators() {
    assert_eq!(value_of("!null"), Literal::True);
    assert_eq!(value_of("!0"), Literal::False);
    assert_eq!(value_of("!\"\""), Literal::False);
    assert_eq!(number(&value_of("-5")), -5.0);
    assert_eq!(number(&value_of("--5")), 5.0);
    assert_eq!(number(&value_of("-(1 - 3)")), 2.0);
    assert_eq!(number(&value_of("3 - -2")), 5.0);
    assert_eq!(number(&value_of("-2 * 3")), -6.0);
    assert_eq!(value_of("-1 < 0"), Literal::True);
    let expr = parse_one("-\"a\"");
    let error = Interpreter.evaluate(&expr, &arith).unwrap_err();
    assert_eq!(error.message, "Expected Number type, got String.");
    assert_eq!(error.token.lexeme, "-");
}

#[test]
fn run_prints_each_value() {
    let out = run("1 + 2 * 3".to_string(), &read, &arith, &show);
    assert!(!out.failed);
    assert_eq!(printed(&out.events), vec!["7".to_string()]);
    let out = run("\"hi\"".to_string(), &read, &arith, &show);
    assert_eq!(printed(&out.events), vec!["hi".to_string()]);
    let out = run("1 == 1".to_string(), &read, &arith, &show);
    assert_eq!(printed(&out.events), vec!["True".to_string()]);
    let out = run("null".to_string(), &read, &arith, &show);
    assert_eq!(printed(&out.events), vec!["Null".to_string()]);
    let out = run("".to_string(), &read, &arith, &show);
    assert!(!out.failed);
    assert!(out.events.is_empty());
}

#[test]
fn run_goes_on_after_a_runtime_error() {
    let out = run("(1 + \"a\") 2".to_string(), &read, &arith, &show);
    assert!(out.failed);
    let shown = printed(&out.events);
    assert_eq!(shown.len(), 2);
    assert_eq!(
        shown[0],
        "!error : Expected Number type, got String.\n --> line 1 : column 1\n   1 |\t(1 + \"a\") 2\n"
    );
    assert_eq!(shown[1], "2");
    let next = run("1 + 1".to_string(), &read, &arith, &show);
    assert!(!next.failed);
    assert_eq!(printed(&next.events), vec!["2".to_string()]);
}

#[test]
fn run_stops_at_a_syntax_error() {
    let out = run("1 ) 2".to_string(), &read, &arith, &show);
    assert!(out.failed);
    let shown = printed(&out.events);
    assert_eq!(shown.len(), 2);
    assert_eq!(shown[0], "1");
    assert_eq!(
        shown[1],
        "!error at ')': Expect expression.\n --> line 1 : column 1\n   1 |\t1 ) 2\n"
    );
}

#[test]
fn run_reports_lexical_errors_first_and_goes_on() {
    let out = run("@ 1".to_string(), &read, &arith, &show);
    assert!(out.failed);
    let shown = printed(&out.events);
    assert_eq!(shown.len(), 2);
    assert_eq!(
        shown[0],
        "!error : Unexpected character: @\n --> line 1 : column 1\n   1 |\t@ 1\n"
    );
    assert_eq!(shown[1], "1");
}

#[test]
fn a_text_without_numbers_does_not_hang_on_the_functions() {
    let no_read = |_: &str| 1u64;
    let no_arith = |_: Arithmetic, _: u64, _: u64| 2u64;
    let no_show = |_: u64| "?".to_string();
    for source in ["\"a\" == \"a\" true ? null : !false", "-\"a\"", "\"a\" + null", "@ (true"] {
        let odd = run(source.to_string(), &no_read, &no_arith, &no_show);
        let usual = run(source.to_string(), &read, &arith, &show);
        assert_eq!(printed(&odd.events), printed(&usual.events));
        assert_eq!(odd.failed, usual.failed);
    }
    let odd = run("@ 1 #".to_string(), &no_read, &no_arith, &no_show);
    let usual = run("@ 1 #".to_string(), &read, &arith, &show);
    assert_eq!(printed(&odd.events)[..2], printed(&usual.events)[..2]);
}

#[test]
fn a_tree_without_arithmetic_does_not_hang_on_the_unit() {
    let no_arith = |_: Arithmetic, _: u64, _: u64| 2u64;
    for source in ["-5", "1 < 2", "!(3 == 3)", "1 ? 2 : 3", "(1, 2) >= 2"] {
        let expr = parse_one(source);
        let odd = Interpreter.evaluate(&expr, &no_arith).unwrap();
        assert!(odd == value_of(source));
    }
}

#[test]
fn run_evaluates_one_expression_after_the_other() {
    let out = run("1 2 3".to_string(), &read, &arith, &show);
    assert!(!out.failed);
    assert_eq!(printed(&out.events), vec!["1".to_string(), "2".to_string(), "3".to_string()]);
}

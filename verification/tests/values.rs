use horba::error::Error;
use horba::error::LogLevel;
use horba::number;
use horba::number::Arithmetic;
use horba::parser::expr::Expr;
use horba::parser::expr::ExprVisitor;
use horba::parser::expr::Literal;
use horba::parser::interpreter::bool_from;
use horba::parser::interpreter::expected_type_msg;
use horba::parser::interpreter::number_from;
use horba::parser::interpreter::string_from;
use horba::parser::interpreter::Evaluator;
use horba::parser::interpreter::Interpreter;
use horba::parser::stmt::Stmt;
use horba::parser::stmt::StmtVisitor;
use horba::scanner::token::Token;
use horba::scanner::token_type::TokenType;

fn arith(op: Arithmetic, a: u64, b: u64) -> u64 {
    let x = f64::from_bits(a);
    let y = f64::from_bits(b);
    let z = match op {
        Arithmetic::Add => x + y,
        Arithmetic::Subtract => x - y,
        Arithmetic::Multiply => x * y,
        Arithmetic::Divide => x / y,
    };
    z.to_bits()
}

fn show(bits: u64) -> String {
    f64::from_bits(bits).to_string()
}

fn num(x: f64) -> Literal {
    Literal::Number(x.to_bits())
}

fn text(s: &str) -> Literal {
    Literal::String(s.to_string())
}

fn token(kind: TokenType, lexeme: &str) -> Token {
    Token::new(kind, lexeme.to_string(), 3, 1)
}

fn samples() -> Vec<f64> {
    vec![
        0.0,
        -0.0,
        1.0,
        -1.0,
        0.5,
        -0.5,
        2.0,
        1e300,
        -1e300,
        5e-324,
        -5e-324,
        f64::MIN_POSITIVE,
        f64::MAX,
        f64::MIN,
        f64::INFINITY,
        f64::NEG_INFINITY,
        f64::NAN,
        -f64::NAN,
        f64::from_bits(0x7ff0_0000_0000_0001),
        f64::from_bits(0xfff8_0000_0000_0000),
        123.0,
        45.67,
    ]
}

#[test]
fn truthiness() {
    assert!(!Literal::is_truthy(&Literal::Null));
    assert!(!Literal::is_truthy(&Literal::False));
    assert!(Literal::is_truthy(&num(0.0)));
    assert!(Literal::is_truthy(&Literal::True));
    assert!(Literal::is_truthy(&text("")));
    assert!(Literal::is_truthy(&num(f64::NAN)));
    assert_eq!(Literal::to_bool(&Literal::Null), Literal::False);
    assert_eq!(Literal::to_bool(&num(0.0)), Literal::True);
    assert_eq!(Literal::to_bool(&Literal::False), Literal::False);
    assert_eq!(Literal::negate(&Literal::Null), Literal::True);
    assert_eq!(Literal::negate(&Literal::False), Literal::True);
    assert_eq!(Literal::negate(&text("")), Literal::False);
    assert_eq!(Literal::negate(&Literal::True), Literal::False);
}

#[test]
fn type_labels() {
    assert_eq!(Literal::type_label(&num(1.0)), "Number");
    assert_eq!(Literal::type_label(&text("a")), "String");
    assert_eq!(Literal::type_label(&Literal::True), "Bool");
    assert_eq!(Literal::type_label(&Literal::False), "Bool");
    assert_eq!(Literal::type_label(&Literal::Null), "Null");
}

#[test]
fn display_forms() {
    assert_eq!(num(7.0).to_text(&show), "7");
    assert_eq!(num(0.1).to_text(&show), "0.1");
    assert_eq!(num(f64::INFINITY).to_text(&show), "inf");
    assert_eq!(text("a b").to_text(&show), "a b");
    assert_eq!(Literal::True.to_text(&show), "True");
    assert_eq!(Literal::False.to_text(&show), "False");
    assert_eq!(Literal::Null.to_text(&show), "Null");
}

#[test]
fn values_are_equal_by_structure() {
    assert!(num(1.0) == num(1.0));
    assert!(num(1.0) != num(2.0));
    assert!(num(0.0) == num(-0.0));
    assert!(num(f64::NAN) != num(f64::NAN));
    assert!(text("a") == text("a"));
    assert!(text("a") != text("b"));
    assert!(text("1") != num(1.0));
    assert!(Literal::True != Literal::False);
    assert!(Literal::Null == Literal::Null);
    assert!(Literal::Null != Literal::False);
    assert!(num(3.0).equals(&num(3.0).clone()));
    assert!(text("x").clone() == text("x"));
}

#[test]
fn ordering_agrees_with_the_hardware() {
    for x in samples() {
        for y in samples() {
            let a = x.to_bits();
            let b = y.to_bits();
            assert_eq!(number::lt(a, b), x < y, "{} < {}", x, y);
            assert_eq!(number::le(a, b), x <= y, "{} <= {}", x, y);
            assert_eq!(number::gt(a, b), x > y, "{} > {}", x, y);
            assert_eq!(number::ge(a, b), x >= y, "{} >= {}", x, y);
            assert_eq!(number::eq(a, b), x == y, "{} == {}", x, y);
        }
        assert_eq!(number::nan(x.to_bits()), x.is_nan());
    }
    assert_eq!(number::INFINITY, f64::INFINITY.to_bits());
    assert_eq!(number::SIGN, (-0.0f64).to_bits());
}

#[test]
fn negation_agrees_with_the_hardware() {
    for x in samples() {
        assert_eq!(number::neg(x.to_bits()), (-x).to_bits(), "-{}", x);
        assert_eq!(number::neg(number::neg(x.to_bits())), x.to_bits());
    }
}

#[test]
fn the_message_of_a_mismatch() {
    assert_eq!(expected_type_msg("Number", "String"), "Expected Number type, got String.");
    assert_eq!(expected_type_msg("", ""), "Expected  type, got .");
}

#[test]
fn conversions_from_a_value() {
    let plus = token(TokenType::Plus, "+");
    assert_eq!(number_from(&num(2.5), &plus).unwrap(), 2.5f64.to_bits());
    let e = number_from(&text("a"), &plus).unwrap_err();
    assert_eq!(e.message, "Expected Number type, got String.");
    assert_eq!(e.token.lexeme, "+");
    assert_eq!(e.token.line, 3);
    assert!(matches!(e.log_level, LogLevel::Error));
    assert_eq!(string_from(&text("a"), &plus).unwrap(), "a");
    let e = string_from(&Literal::Null, &plus).unwrap_err();
    assert_eq!(e.message, "Expected String type, got Null.");
    assert!(bool_from(&Literal::True, &plus).unwrap());
    assert!(!bool_from(&Literal::False, &plus).unwrap());
    let e = bool_from(&num(1.0), &plus).unwrap_err();
    assert_eq!(e.message, "Expected Bool type, got Number.");
}

#[test]
fn every_infix_operator() {
    let i = Interpreter;
    let apply = |kind: TokenType, a: &Literal, b: &Literal| {
        i.apply_binary(a, &token(kind, "?"), b, &arith)
    };
    let six = num(6.0);
    let four = num(4.0);
    assert_eq!(apply(TokenType::Minus, &six, &four).unwrap(), num(2.0));
    assert_eq!(apply(TokenType::Plus, &six, &four).unwrap(), num(10.0));
    assert_eq!(apply(TokenType::Slash, &six, &four).unwrap(), num(1.5));
    assert_eq!(apply(TokenType::Star, &six, &four).unwrap(), num(24.0));
    assert_eq!(apply(TokenType::Greater, &six, &four).unwrap(), Literal::True);
    assert_eq!(apply(TokenType::GreaterEqual, &six, &four).unwrap(), Literal::True);
    assert_eq!(apply(TokenType::Less, &six, &four).unwrap(), Literal::False);
    assert_eq!(apply(TokenType::LessEqual, &six, &six).unwrap(), Literal::True);
    assert_eq!(apply(TokenType::BangEqual, &six, &four).unwrap(), Literal::True);
    assert_eq!(apply(TokenType::EqualEqual, &six, &four).unwrap(), Literal::False);
    assert_eq!(apply(TokenType::EqualEqual, &six, &text("6")).unwrap(), Literal::False);
    for kind in [
        TokenType::Minus,
        TokenType::Plus,
        TokenType::Slash,
        TokenType::Star,
        TokenType::Greater,
        TokenType::GreaterEqual,
        TokenType::Less,
        TokenType::LessEqual,
    ] {
        let e = apply(kind.clone(), &six, &text("a")).unwrap_err();
        assert_eq!(e.message, "Expected Number type, got String.");
        let e = apply(kind, &Literal::True, &text("a")).unwrap_err();
        assert_eq!(e.message, "Expected Number type, got Bool.");
    }
    let e = apply(TokenType::Comma, &six, &four).unwrap_err();
    assert_eq!(e.message, "Expected two numbers on each side of the operator.");
    assert_eq!(e.token.lexeme, "?");
}

#[test]
fn every_prefix_operator() {
    let i = Interpreter;
    assert_eq!(i.apply_unary(&token(TokenType::Minus, "-"), &num(2.0)).unwrap(), num(-2.0));
    assert_eq!(i.apply_unary(&token(TokenType::Minus, "-"), &num(-2.5)).unwrap(), num(2.5));
    match i.apply_unary(&token(TokenType::Minus, "-"), &num(0.0)).unwrap() {
        Literal::Number(bits) => assert_eq!(bits, (-0.0f64).to_bits()),
        other => panic!("{:?}", other),
    }
    assert_eq!(i.apply_unary(&token(TokenType::Bang, "!"), &num(2.0)).unwrap(), Literal::False);
    assert_eq!(i.apply_unary(&token(TokenType::Bang, "!"), &Literal::Null).unwrap(), Literal::True);
    assert_eq!(i.apply_unary(&token(TokenType::Plus, "+"), &num(2.0)).unwrap(), Literal::Null);
    let e = i.apply_unary(&token(TokenType::Minus, "-"), &Literal::Null).unwrap_err();
    assert_eq!(e.message, "Expected Number type, got Null.");
}

#[test]
fn a_runtime_error_laid_out() {
    let e = number_from(&text("a"), &Token::new(TokenType::Plus, "+".to_string(), 2, 1))
        .unwrap_err();
    let spans = e.report("1\n2 + \"a\"\n3");
    assert_eq!(
        horba::error::plain(&spans),
        "error : Expected Number type, got String.\n --> line 2 : column 1\n   2 |\t2 + \"a\"\n"
    );
}

#[test]
fn interpret_shows_a_value_or_an_error() {
    let i = Interpreter;
    let sum = Expr::Binary(horba::parser::expr::Binary {
        left: Box::new(Expr::Literal(num(1.0))),
        operator: token(TokenType::Plus, "+"),
        right: Box::new(Expr::Literal(num(2.0))),
    });
    assert_eq!(i.interpret(sum, "1 + 2", &arith, &show).unwrap(), "3");
    let bad = Expr::Unary(horba::parser::expr::Unary {
        operator: token(TokenType::Minus, "-"),
        expression: Box::new(Expr::Literal(Literal::Null)),
    });
    let spans = i.interpret(bad, "a\nb\n-null", &arith, &show).unwrap_err();
    assert_eq!(
        horba::error::plain(&spans),
        "error : Expected Number type, got Null.\n --> line 3 : column 1\n   3 |\t-null\n"
    );
}

#[test]
fn the_interpreter_as_a_visitor() {
    let product = Expr::Binary(horba::parser::expr::Binary {
        left: Box::new(Expr::Grouping(horba::parser::expr::Grouping {
            expression: Box::new(Expr::Literal(num(2.0))),
        })),
        operator: token(TokenType::Star, "*"),
        right: Box::new(Expr::Literal(num(4.0))),
    });
    let evaluator = Evaluator { interpreter: Interpreter, arith: &arith };
    assert_eq!(product.accept(&evaluator).unwrap(), num(8.0));
    assert_eq!(evaluator.visit_expr(&product).unwrap(), num(8.0));
    assert_eq!(Interpreter.visit_literal(&text("a")).unwrap(), text("a"));
}

#[test]
fn a_token_hands_out_its_literal() {
    assert_eq!(token(TokenType::Number(2.0f64.to_bits()), "2").get_literal(), Some(num(2.0)));
    assert_eq!(token(TokenType::String("a".to_string()), "\"a\"").get_literal(), Some(text("a")));
    assert_eq!(token(TokenType::True, "true").get_literal(), None);
    assert_eq!(token(TokenType::Plus, "+").get_literal(), None);
    let t = token(TokenType::String("a".to_string()), "\"a\"");
    let copy = t.clone();
    assert!(copy.token == t.token);
    assert_eq!(copy.lexeme, "\"a\"");
    assert_eq!(copy.line, 3);
    assert_eq!(copy.column, 1);
}

struct Counter {
    seen: usize,
}

impl StmtVisitor<usize> for Counter {
    fn visit_stmt(&mut self, _stmt: &Stmt) -> usize {
        self.seen += 1;
        self.seen
    }
}

#[test]
fn a_statement_goes_to_its_visitor() {
    let stmt = Stmt::Expression(Expr::Literal(Literal::Null));
    let mut counter = Counter { seen: 0 };
    assert_eq!(stmt.accept(&mut counter), 1);
    assert_eq!(stmt.accept(&mut counter), 2);
}

//! The tree-walking evaluator.
//!
//! The four infix arithmetic operations are not done here: the caller hands
//! in the unit that does them, and every contract says what comes out for
//! whatever that unit computes, and outright where the unit is never asked.
//! Negation, ordering, equality, truthiness and the checks of type are
//! decided here.
use vstd::prelude::*;
use crate::error::Error;
use crate::error::LogLevel;
use crate::error::Span;
use crate::error::layout;
use crate::error::span_views;
use crate::error::Style;
use crate::number;
use crate::number::computes;
use crate::number::shows;
use crate::number::Arithmetic;
use crate::number::ArithmeticModel;
use crate::number::ShowModel;
use crate::parser::expr::Binary;
use crate::parser::expr::Comma;
use crate::parser::expr::Expr;
use crate::parser::expr::ExprVisitor;
use crate::parser::expr::Grouping;
use crate::parser::expr::Literal;
use crate::parser::expr::Ternary;
use crate::parser::expr::Tree;
use crate::parser::expr::Unary;
use crate::parser::expr::Value;
use crate::parser::runtime_error::Fault;
use crate::parser::runtime_error::RuntimeError;
use crate::scanner::token::Token;
use crate::scanner::token::TokenView;
use crate::scanner::token_type::TokenKind;
use crate::scanner::token_type::TokenType;

verus! {

/// The interpreter. It holds nothing: no state outlives an evaluation.
#[derive(Clone, Copy, Debug)]
pub struct Interpreter;

/// The message of a type mismatch.
pub open spec fn expected_type_text(expected: Seq<char>, got: Seq<char>) -> Seq<char> {
    "Expected "@ + expected + " type, got "@ + got + "."@
}

/// The error raised when `value` is not of the type named `expected`.
pub open spec fn mismatch(expected: Seq<char>, value: Value, token: TokenView) -> Fault {
    Fault {
        token,
        log_level: LogLevel::Error,
        message: expected_type_text(expected, value.type_label()),
    }
}

/// The number in `value`, or the mismatch at `token`.
pub open spec fn as_number(value: Value, token: TokenView) -> Result<u64, Fault> {
    match value {
        Value::Number(x) => Ok(x),
        _ => Err(mismatch("Number"@, value, token)),
    }
}

/// The text in `value`, or the mismatch at `token`.
pub open spec fn as_string(value: Value, token: TokenView) -> Result<Seq<char>, Fault> {
    match value {
        Value::String(s) => Ok(s),
        _ => Err(mismatch("String"@, value, token)),
    }
}

/// The truth value in `value`, or the mismatch at `token`.
pub open spec fn as_bool(value: Value, token: TokenView) -> Result<bool, Fault> {
    match value {
        Value::True => Ok(true),
        Value::False => Ok(false),
        _ => Err(mismatch("Bool"@, value, token)),
    }
}

/// Both operands as numbers, the left one checked first.
pub open spec fn operands(left: Value, operator: TokenView, right: Value) -> Result<
    (u64, u64),
    Fault,
> {
    match as_number(left, operator) {
        Err(fault) => Err(fault),
        Ok(a) => match as_number(right, operator) {
            Err(fault) => Err(fault),
            Ok(b) => Ok((a, b)),
        },
    }
}

/// The arithmetic operator that a token kind stands for.
pub open spec fn arithmetic_of(kind: TokenKind) -> Option<Arithmetic> {
    match kind {
        TokenKind::Minus => Some(Arithmetic::Subtract),
        TokenKind::Plus => Some(Arithmetic::Add),
        TokenKind::Slash => Some(Arithmetic::Divide),
        TokenKind::Star => Some(Arithmetic::Multiply),
        _ => None,
    }
}

/// What an ordering operator says of two numbers; `None` for any other kind.
pub open spec fn ordering_of(kind: TokenKind, a: u64, b: u64) -> Option<bool> {
    match kind {
        TokenKind::Greater => Some(number::less(b, a)),
        TokenKind::GreaterEqual => Some(number::less(b, a) || number::same(a, b)),
        TokenKind::Less => Some(number::less(a, b)),
        TokenKind::LessEqual => Some(number::less(a, b) || number::same(a, b)),
        _ => None,
    }
}

/// The result of an infix operator on two values.
///
/// Arithmetic and ordering want two numbers and say so at the operator
/// otherwise. Equality compares any two values and never fails.
pub open spec fn binary(
    left: Value,
    operator: TokenView,
    right: Value,
    model: ArithmeticModel,
) -> Result<Value, Fault> {
    let kind = operator.token;
    if kind is EqualEqual {
        Ok(Value::from_bool(left.equals(right)))
    } else if kind is BangEqual {
        Ok(Value::from_bool(!left.equals(right)))
    } else if arithmetic_of(kind) is Some {
        match operands(left, operator, right) {
            Err(fault) => Err(fault),
            Ok((a, b)) => Ok(Value::Number(model(arithmetic_of(kind).unwrap(), a, b))),
        }
    } else if ordering_of(kind, 0, 0) is Some {
        match operands(left, operator, right) {
            Err(fault) => Err(fault),
            Ok((a, b)) => Ok(Value::from_bool(ordering_of(kind, a, b).unwrap())),
        }
    } else {
        Err(
            Fault {
                token: operator,
                log_level: LogLevel::Error,
                message: "Expected two numbers on each side of the operator."@,
            },
        )
    }
}

/// The result of a prefix operator on a value.
///
/// `-` wants a number and negates it; `!` negates the truthiness of any
/// value and never fails.
pub open spec fn unary(operator: TokenView, value: Value) -> Result<Value, Fault> {
    match operator.token {
        TokenKind::Minus => match as_number(value, operator) {
            Err(fault) => Err(fault),
            Ok(x) => Ok(Value::Number(number::negated(x))),
        },
        TokenKind::Bang => Ok(Value::from_bool(!value.truthy())),
        _ => Ok(Value::Null),
    }
}

/// The value of a tree: children before parent, left before right, and of the
/// two arms of a conditional only the one that the condition picks.
pub open spec fn eval(tree: Tree, model: ArithmeticModel) -> Result<Value, Fault>
    decreases tree,
{
    match tree {
        Tree::Literal(value) => Ok(value),
        Tree::Grouping(inner) => eval(*inner, model),
        Tree::Unary(operator, operand) => match eval(*operand, model) {
            Err(fault) => Err(fault),
            Ok(value) => unary(operator, value),
        },
        Tree::Binary(left, operator, right) => match eval(*left, model) {
            Err(fault) => Err(fault),
            Ok(a) => match eval(*right, model) {
                Err(fault) => Err(fault),
                Ok(b) => binary(a, operator, b, model),
            },
        },
        Tree::Ternary(condition, if_true, if_false) => match eval(*condition, model) {
            Err(fault) => Err(fault),
            Ok(value) => if value.truthy() {
                eval(*if_true, model)
            } else {
                eval(*if_false, model)
            },
        },
        Tree::Comma(first, second) => match eval(*first, model) {
            Err(fault) => Err(fault),
            Ok(_) => eval(*second, model),
        },
    }
}

/// No arithmetic operator stands in the tree.
pub open spec fn arithmetic_free(tree: Tree) -> bool
    decreases tree,
{
    match tree {
        Tree::Literal(_) => true,
        Tree::Grouping(inner) => arithmetic_free(*inner),
        Tree::Unary(_, operand) => arithmetic_free(*operand),
        Tree::Binary(left, operator, right) => arithmetic_of(operator.token) is None
            && arithmetic_free(*left) && arithmetic_free(*right),
        Tree::Ternary(condition, if_true, if_false) => arithmetic_free(*condition)
            && arithmetic_free(*if_true) && arithmetic_free(*if_false),
        Tree::Comma(first, second) => arithmetic_free(*first) && arithmetic_free(*second),
    }
}

/// No number literal stands in the tree.
pub open spec fn numberless(tree: Tree) -> bool
    decreases tree,
{
    match tree {
        Tree::Literal(value) => !(value is Number),
        Tree::Grouping(inner) => numberless(*inner),
        Tree::Unary(_, operand) => numberless(*operand),
        Tree::Binary(left, _, right) => numberless(*left) && numberless(*right),
        Tree::Ternary(condition, if_true, if_false) => numberless(*condition) && numberless(
            *if_true,
        ) && numberless(*if_false),
        Tree::Comma(first, second) => numberless(*first) && numberless(*second),
    }
}

/// The value of the tree does not hang on the arithmetic unit: there is
/// no arithmetic operator in it, or no number for one to work on.
pub open spec fn unit_free(tree: Tree) -> bool {
    arithmetic_free(tree) || numberless(tree)
}

/// What is known of an evaluation with `unit`: that the unit computes
/// `model`, or that the tree does not hang on the unit, so that any model
/// tells its value.
pub open spec fn settled<F: Fn(Arithmetic, u64, u64) -> u64>(
    unit: &F,
    model: ArithmeticModel,
    tree: Tree,
) -> bool {
    computes(unit, model) || unit_free(tree)
}

/// A tree without a number literal never has a number as its value, and
/// has the same value whatever the arithmetic is.
pub proof fn numberless_values(tree: Tree, model: ArithmeticModel, other: ArithmeticModel)
    requires
        numberless(tree),
    ensures
        !(eval(tree, model) matches Ok(Value::Number(_))),
        eval(tree, model) == eval(tree, other),
    decreases tree,
{
    match tree {
        Tree::Literal(_) => {},
        Tree::Grouping(inner) => numberless_values(*inner, model, other),
        Tree::Unary(_, operand) => numberless_values(*operand, model, other),
        Tree::Binary(left, _, right) => {
            numberless_values(*left, model, other);
            numberless_values(*right, model, other);
        },
        Tree::Ternary(condition, if_true, if_false) => {
            numberless_values(*condition, model, other);
            numberless_values(*if_true, model, other);
            numberless_values(*if_false, model, other);
        },
        Tree::Comma(first, second) => {
            numberless_values(*first, model, other);
            numberless_values(*second, model, other);
        },
    }
}

/// A tree without an arithmetic operator has the same value whatever the
/// arithmetic is.
pub proof fn arithmetic_free_values(tree: Tree, model: ArithmeticModel, other: ArithmeticModel)
    requires
        arithmetic_free(tree),
    ensures
        eval(tree, model) == eval(tree, other),
    decreases tree,
{
    match tree {
        Tree::Literal(_) => {},
        Tree::Grouping(inner) => arithmetic_free_values(*inner, model, other),
        Tree::Unary(_, operand) => arithmetic_free_values(*operand, model, other),
        Tree::Binary(left, _, right) => {
            arithmetic_free_values(*left, model, other);
            arithmetic_free_values(*right, model, other);
        },
        Tree::Ternary(condition, if_true, if_false) => {
            arithmetic_free_values(*condition, model, other);
            arithmetic_free_values(*if_true, model, other);
            arithmetic_free_values(*if_false, model, other);
        },
        Tree::Comma(first, second) => {
            arithmetic_free_values(*first, model, other);
            arithmetic_free_values(*second, model, other);
        },
    }
}

/// What a tree that does not hang on the unit hands down: its children do
/// not hang on it either, and the operands of an arithmetic operator in it
/// are no numbers.
proof fn free_below(tree: Tree, model: ArithmeticModel)
    ensures
        unit_free(tree) ==> match tree {
            Tree::Literal(_) => true,
            Tree::Grouping(inner) => unit_free(*inner),
            Tree::Unary(_, operand) => unit_free(*operand),
            Tree::Binary(left, operator, right) => {
                &&& unit_free(*left)
                &&& unit_free(*right)
                &&& arithmetic_of(operator.token) is None || {
                    &&& !(eval(*left, model) matches Ok(Value::Number(_)))
                    &&& !(eval(*right, model) matches Ok(Value::Number(_)))
                }
            },
            Tree::Ternary(condition, if_true, if_false) => unit_free(*condition) && unit_free(
                *if_true,
            ) && unit_free(*if_false),
            Tree::Comma(first, second) => unit_free(*first) && unit_free(*second),
        },
{
    if numberless(tree) {
        if let Tree::Binary(left, _, right) = tree {
            numberless_values(*left, model, model);
            numberless_values(*right, model, model);
        }
    }
}

/// The mathematical value of an outcome of evaluation.
pub open spec fn outcome(result: Result<Literal, RuntimeError>) -> Result<Value, Fault> {
    match result {
        Ok(value) => Ok(value@),
        Err(error) => Err(error@),
    }
}

/// What evaluation shows: the display form of the value, or the error laid
/// out against the source text, at the place of its token and with no label
/// of place.
pub open spec fn shown_result(
    result: Result<Value, Fault>,
    source: Seq<char>,
    shown: ShowModel,
) -> Result<Seq<char>, Seq<(Seq<char>, Style)>> {
    match result {
        Ok(value) => Ok(value.display(shown)),
        Err(fault) => Err(
            layout(
                fault.token.line,
                fault.token.column,
                fault.log_level,
                Seq::empty(),
                fault.message,
                source,
            ),
        ),
    }
}

/// What interpreting a tree shows.
pub open spec fn interpreted(
    tree: Tree,
    source: Seq<char>,
    model: ArithmeticModel,
    shown: ShowModel,
) -> Result<Seq<char>, Seq<(Seq<char>, Style)>> {
    shown_result(eval(tree, model), source, shown)
}

/// The mathematical value of what `interpret` hands back.
pub open spec fn shown_views(out: Result<String, Vec<Span>>) -> Result<
    Seq<char>,
    Seq<(Seq<char>, Style)>,
> {
    match out {
        Ok(text) => Ok(text@),
        Err(spans) => Err(span_views(spans@)),
    }
}

/// Builds the message of a type mismatch.
pub fn expected_type_msg(expected: &str, got: &str) -> (out: String)
    ensures
        out@ == expected_type_text(expected@, got@),
{
    let mut out = "Expected ".to_string();
    out.append(expected);
    out.append(" type, got ");
    out.append(got);
    out.append(".");
    out
}

fn type_error(expected: &str, value: &Literal, token: &Token) -> (out: RuntimeError)
    ensures
        out@ == mismatch(expected@, value@, token@),
{
    let got = Literal::type_label(value);
    RuntimeError {
        token: token.clone(),
        log_level: LogLevel::Error,
        message: expected_type_msg(expected, got.as_str()),
    }
}

/// The number in `value`, or an error placed at `token`.
pub fn number_from(value: &Literal, token: &Token) -> (out: Result<u64, RuntimeError>)
    ensures
        match out {
            Ok(x) => as_number(value@, token@) == Ok::<u64, Fault>(x),
            Err(error) => as_number(value@, token@) == Err::<u64, Fault>(error@),
        },
{
    match value {
        Literal::Number(x) => Ok(*x),
        _ => Err(type_error("Number", value, token)),
    }
}

/// The text in `value`, or an error placed at `token`.
pub fn string_from(value: &Literal, token: &Token) -> (out: Result<String, RuntimeError>)
    ensures
        match out {
            Ok(s) => as_string(value@, token@) == Ok::<Seq<char>, Fault>(s@),
            Err(error) => as_string(value@, token@) == Err::<Seq<char>, Fault>(error@),
        },
{
    match value {
        Literal::String(s) => Ok(s.clone()),
        _ => Err(type_error("String", value, token)),
    }
}

/// The truth value in `value`, or an error placed at `token`.
pub fn bool_from(value: &Literal, token: &Token) -> (out: Result<bool, RuntimeError>)
    ensures
        match out {
            Ok(b) => as_bool(value@, token@) == Ok::<bool, Fault>(b),
            Err(error) => as_bool(value@, token@) == Err::<bool, Fault>(error@),
        },
{
    match value {
        Literal::True => Ok(true),
        Literal::False => Ok(false),
        _ => Err(type_error("Bool", value, token)),
    }
}

fn truth(flag: bool) -> (out: Literal)
    ensures
        out@ == Value::from_bool(flag),
{
    if flag {
        Literal::True
    } else {
        Literal::False
    }
}

fn number_pair(left: &Literal, operator: &Token, right: &Literal) -> (out: Result<
    (u64, u64),
    RuntimeError,
>)
    ensures
        match out {
            Ok(pair) => operands(left@, operator@, right@) == Ok::<(u64, u64), Fault>(pair),
            Err(error) => operands(left@, operator@, right@) == Err::<(u64, u64), Fault>(error@),
        },
{
    let a = number_from(left, operator)?;
    let b = number_from(right, operator)?;
    Ok((a, b))
}

impl Interpreter {
    /// Applies an infix operator to two values. The arithmetic unit is asked
    /// only for an arithmetic operator on two numbers; in every other case
    /// the result is told whatever the unit is.
    pub fn apply_binary<F: Fn(Arithmetic, u64, u64) -> u64>(
        &self,
        left: &Literal,
        operator: &Token,
        right: &Literal,
        arith: &F,
    ) -> (out: Result<Literal, RuntimeError>)
        requires
            forall|op: Arithmetic, a: u64, b: u64| call_requires(*arith, (op, a, b)),
        ensures
            forall|model: ArithmeticModel|
                computes(arith, model) || arithmetic_of(operator@.token) is None || !(left@ is Number
                    && right@ is Number) ==> outcome(out) == #[trigger] binary(
                    left@,
                    operator@,
                    right@,
                    model,
                ),
    {
        match operator.token {
            TokenType::Minus => {
                let (a, b) = number_pair(left, operator, right)?;
                Ok(Literal::Number(arith(Arithmetic::Subtract, a, b)))
            },
            TokenType::Plus => {
                let (a, b) = number_pair(left, operator, right)?;
                Ok(Literal::Number(arith(Arithmetic::Add, a, b)))
            },
            TokenType::Slash => {
                let (a, b) = number_pair(left, operator, right)?;
                Ok(Literal::Number(arith(Arithmetic::Divide, a, b)))
            },
            TokenType::Star => {
                let (a, b) = number_pair(left, operator, right)?;
                Ok(Literal::Number(arith(Arithmetic::Multiply, a, b)))
            },
            TokenType::Greater => {
                let (a, b) = number_pair(left, operator, right)?;
                Ok(truth(number::gt(a, b)))
            },
            TokenType::GreaterEqual => {
                let (a, b) = number_pair(left, operator, right)?;
                Ok(truth(number::ge(a, b)))
            },
            TokenType::Less => {
                let (a, b) = number_pair(left, operator, right)?;
                Ok(truth(number::lt(a, b)))
            },
            TokenType::LessEqual => {
                let (a, b) = number_pair(left, operator, right)?;
                Ok(truth(number::le(a, b)))
            },
            TokenType::BangEqual => Ok(truth(!left.equals(right))),
            TokenType::EqualEqual => Ok(truth(left.equals(right))),
            _ => Err(
                RuntimeError {
                    token: operator.clone(),
                    log_level: LogLevel::Error,
                    message: "Expected two numbers on each side of the operator.".to_string(),
                },
            ),
        }
    }

    /// Applies a prefix operator to a value.
    pub fn apply_unary(&self, operator: &Token, value: &Literal) -> (out: Result<
        Literal,
        RuntimeError,
    >)
        ensures
            outcome(out) == unary(operator@, value@),
    {
        match operator.token {
            TokenType::Minus => {
                let x = number_from(value, operator)?;
                Ok(Literal::Number(number::neg(x)))
            },
            TokenType::Bang => Ok(Literal::negate(value)),
            _ => Ok(Literal::Null),
        }
    }

    /// Evaluates an expression. The tree is only read. The value is told for
    /// what the arithmetic unit computes, and outright for a tree that does
    /// not hang on the unit.
    pub fn evaluate<F: Fn(Arithmetic, u64, u64) -> u64>(&self, expr: &Expr, arith: &F) -> (out:
        Result<Literal, RuntimeError>)
        requires
            forall|op: Arithmetic, a: u64, b: u64| call_requires(*arith, (op, a, b)),
        ensures
            forall|model: ArithmeticModel|
                settled(arith, model, expr@) ==> outcome(out) == #[trigger] eval(
                    expr@,
                    model,
                ),
        decreases expr, 1nat,
    {
        match expr {
            Expr::Grouping(grouping) => self.visit_grouping(grouping, arith),
            Expr::Binary(binary) => self.visit_binary(binary, arith),
            Expr::Literal(literal) => self.visit_literal(literal),
            Expr::Unary(unary) => self.visit_unary(unary, arith),
            Expr::Ternary(ternary) => self.visit_ternary(ternary, arith),
            Expr::Comma(comma) => self.visit_comma(comma, arith),
        }
    }

    /// A group has the value of what it holds.
    pub fn visit_grouping<F: Fn(Arithmetic, u64, u64) -> u64>(
        &self,
        grouping: &Grouping,
        arith: &F,
    ) -> (out: Result<Literal, RuntimeError>)
        requires
            forall|op: Arithmetic, a: u64, b: u64| call_requires(*arith, (op, a, b)),
        ensures
            forall|model: ArithmeticModel|
                settled(arith, model, Expr::Grouping(*grouping)@) ==> outcome(out) == #[trigger] eval(
                    Expr::Grouping(*grouping)@,
                    model,
                ),
        decreases grouping, 0nat,
    {
        let out = self.evaluate(&grouping.expression, arith);
        assert forall|model: ArithmeticModel| settled(arith, model, Expr::Grouping(*grouping)@) implies outcome(
            out,
        ) == eval(Expr::Grouping(*grouping)@, model) by {
            free_below(Expr::Grouping(*grouping)@, model);
            assert(outcome(out) == eval(grouping.expression@, model));
        }
        out
    }

    /// Both operands, left before right, then the operator.
    pub fn visit_binary<F: Fn(Arithmetic, u64, u64) -> u64>(
        &self,
        binary: &Binary,
        arith: &F,
    ) -> (out: Result<Literal, RuntimeError>)
        requires
            forall|op: Arithmetic, a: u64, b: u64| call_requires(*arith, (op, a, b)),
        ensures
            forall|model: ArithmeticModel|
                settled(arith, model, Expr::Binary(*binary)@) ==> outcome(out) == #[trigger] eval(
                    Expr::Binary(*binary)@,
                    model,
                ),
        decreases binary, 0nat,
    {
        let first = self.evaluate(&binary.left, arith);
        let left = match first {
            Err(error) => {
                let out = Err(error);
                assert forall|model: ArithmeticModel| settled(arith, model, Expr::Binary(*binary)@) implies outcome(
            out,
        ) == eval(Expr::Binary(*binary)@, model) by {
            free_below(Expr::Binary(*binary)@, model);
                    assert(outcome(first) == eval(binary.left@, model));
                }
                return out;
            },
            Ok(left) => left,
        };
        let second = self.evaluate(&binary.right, arith);
        let out = match second {
            Err(error) => Err(error),
            Ok(right) => self.apply_binary(&left, &binary.operator, &right, arith),
        };
        assert forall|model: ArithmeticModel| settled(arith, model, Expr::Binary(*binary)@) implies outcome(
            out,
        ) == eval(Expr::Binary(*binary)@, model) by {
            free_below(Expr::Binary(*binary)@, model);
            assert(outcome(first) == eval(binary.left@, model));
            assert(outcome(second) == eval(binary.right@, model));
            if let Ok(right) = second {
                assert(outcome(out) == self::binary(left@, binary.operator@, right@, model));
            }
        }
        out
    }

    /// A literal has the value it holds.
    pub fn visit_literal(&self, literal: &Literal) -> (out: Result<Literal, RuntimeError>)
        ensures
            outcome(out) == Ok::<Value, Fault>(literal@),
    {
        Ok(literal.clone())
    }

    /// The operand, then the operator.
    pub fn visit_unary<F: Fn(Arithmetic, u64, u64) -> u64>(&self, unary: &Unary, arith: &F) -> (out:
        Result<Literal, RuntimeError>)
        requires
            forall|op: Arithmetic, a: u64, b: u64| call_requires(*arith, (op, a, b)),
        ensures
            forall|model: ArithmeticModel|
                settled(arith, model, Expr::Unary(*unary)@) ==> outcome(out) == #[trigger] eval(
                    Expr::Unary(*unary)@,
                    model,
                ),
        decreases unary, 0nat,
    {
        let operand = self.evaluate(&unary.expression, arith);
        let out = match operand {
            Err(error) => Err(error),
            Ok(right) => self.apply_unary(&unary.operator, &right),
        };
        assert forall|model: ArithmeticModel| settled(arith, model, Expr::Unary(*unary)@) implies outcome(
            out,
        ) == eval(Expr::Unary(*unary)@, model) by {
            free_below(Expr::Unary(*unary)@, model);
            assert(outcome(operand) == eval(unary.expression@, model));
        }
        out
    }

    /// The condition, then the one arm that it picks.
    pub fn visit_ternary<F: Fn(Arithmetic, u64, u64) -> u64>(
        &self,
        ternary: &Ternary,
        arith: &F,
    ) -> (out: Result<Literal, RuntimeError>)
        requires
            forall|op: Arithmetic, a: u64, b: u64| call_requires(*arith, (op, a, b)),
        ensures
            forall|model: ArithmeticModel|
                settled(arith, model, Expr::Ternary(*ternary)@) ==> outcome(out) == #[trigger] eval(
                    Expr::Ternary(*ternary)@,
                    model,
                ),
        decreases ternary, 0nat,
    {
        let condition = self.evaluate(&ternary.condition, arith);
        let out = match condition {
            Err(error) => Err(error),
            Ok(value) => if Literal::is_truthy(&value) {
                self.evaluate(&ternary.if_true, arith)
            } else {
                self.evaluate(&ternary.if_false, arith)
            },
        };
        assert forall|model: ArithmeticModel| settled(arith, model, Expr::Ternary(*ternary)@) implies outcome(
            out,
        ) == eval(Expr::Ternary(*ternary)@, model) by {
            free_below(Expr::Ternary(*ternary)@, model);
            assert(outcome(condition) == eval(ternary.condition@, model));
            if let Ok(value) = condition {
                if value@.truthy() {
                    assert(outcome(out) == eval(ternary.if_true@, model));
                } else {
                    assert(outcome(out) == eval(ternary.if_false@, model));
                }
            }
        }
        out
    }

    /// The left side for its errors only, then the right side.
    pub fn visit_comma<F: Fn(Arithmetic, u64, u64) -> u64>(&self, comma: &Comma, arith: &F) -> (out:
        Result<Literal, RuntimeError>)
        requires
            forall|op: Arithmetic, a: u64, b: u64| call_requires(*arith, (op, a, b)),
        ensures
            forall|model: ArithmeticModel|
                settled(arith, model, Expr::Comma(*comma)@) ==> outcome(out) == #[trigger] eval(
                    Expr::Comma(*comma)@,
                    model,
                ),
        decreases comma, 0nat,
    {
        let first = self.evaluate(&comma.expr, arith);
        let out = match first {
            Err(error) => Err(error),
            Ok(_) => self.evaluate(&comma.next, arith),
        };
        assert forall|model: ArithmeticModel| settled(arith, model, Expr::Comma(*comma)@) implies outcome(
            out,
        ) == eval(Expr::Comma(*comma)@, model) by {
            free_below(Expr::Comma(*comma)@, model);
            assert(outcome(first) == eval(comma.expr@, model));
            if first is Ok {
                assert(outcome(out) == eval(comma.next@, model));
            }
        }
        out
    }

    /// Evaluates an expression once and says what is to be shown: the display
    /// form of the value, or the error laid out against the source text.
    /// What is shown hangs on `show` only where the value is a number.
    pub fn interpret<F: Fn(Arithmetic, u64, u64) -> u64, G: Fn(u64) -> String>(
        &self,
        expr: Expr,
        source: &str,
        arith: &F,
        show: &G,
    ) -> (out: Result<String, Vec<Span>>)
        requires
            forall|op: Arithmetic, a: u64, b: u64| call_requires(*arith, (op, a, b)),
            forall|bits: u64| call_requires(*show, (bits,)),
        ensures
            forall|model: ArithmeticModel, shown: ShowModel|
                settled(arith, model, expr@) && (shows(show, shown) || !(eval(
                    expr@,
                    model,
                ) matches Ok(Value::Number(_)))) ==> shown_views(out) == #[trigger] interpreted(
                    expr@,
                    source@,
                    model,
                    shown,
                ),
    {
        let evaluated = self.evaluate(&expr, arith);
        let out = match evaluated {
            Ok(value) => Ok(value.to_text(show)),
            Err(error) => Err(error.report(source)),
        };
        assert forall|model: ArithmeticModel, shown: ShowModel|
            settled(arith, model, expr@) && (shows(show, shown) || !(eval(expr@, model) matches Ok(
                Value::Number(_),
            ))) implies shown_views(out) == interpreted(
            expr@,
            source@,
            model,
            shown,
        ) by {
            assert(outcome(evaluated) == eval(expr@, model));
        }
        out
    }
}

/// `==` and `!=` never raise an error, whatever the two values are: they
/// say whether the values are equal, and values of different kinds are not.
pub proof fn equality_never_fails(
    left: Value,
    operator: TokenView,
    right: Value,
    model: ArithmeticModel,
)
    requires
        operator.token is EqualEqual || operator.token is BangEqual,
    ensures
        binary(left, operator, right, model) == Ok::<Value, Fault>(
            Value::from_bool(left.equals(right) == (operator.token is EqualEqual)),
        ),
        !(left is Number && right is Number) && left != right ==> !left.equals(right),
{
}

/// Arithmetic and ordering on a value that is no number raise the mismatch
/// at the operator, naming `Number` as wanted and the type of the first
/// operand that is none as found.
pub proof fn numbers_are_required(
    left: Value,
    operator: TokenView,
    right: Value,
    model: ArithmeticModel,
)
    requires
        arithmetic_of(operator.token) is Some || ordering_of(operator.token, 0, 0) is Some,
    ensures
        !(left is Number) ==> binary(left, operator, right, model) == Err::<Value, Fault>(
            mismatch("Number"@, left, operator),
        ),
        left is Number && !(right is Number) ==> binary(left, operator, right, model) == Err::<
            Value,
            Fault,
        >(mismatch("Number"@, right, operator)),
        left is Number && right is Number ==> binary(left, operator, right, model) is Ok,
{
}

/// Of the two arms of a conditional only the one that the condition picks
/// bears on the result: the other may be any tree.
pub proof fn untaken_arm_is_not_evaluated(
    condition: Tree,
    taken: Tree,
    other: Tree,
    another: Tree,
    model: ArithmeticModel,
)
    ensures
        eval(condition, model) matches Ok(value) && value.truthy() ==> eval(
            Tree::Ternary(Box::new(condition), Box::new(taken), Box::new(other)),
            model,
        ) == eval(taken, model) && eval(
            Tree::Ternary(Box::new(condition), Box::new(taken), Box::new(another)),
            model,
        ) == eval(taken, model),
        eval(condition, model) matches Ok(value) && !value.truthy() ==> eval(
            Tree::Ternary(Box::new(condition), Box::new(other), Box::new(taken)),
            model,
        ) == eval(taken, model) && eval(
            Tree::Ternary(Box::new(condition), Box::new(another), Box::new(taken)),
            model,
        ) == eval(taken, model),
{
}

/// A comma hands on the value of its right side and drops that of its left
/// side, which only has to evaluate.
pub proof fn comma_drops_its_left_side(first: Tree, second: Tree, model: ArithmeticModel)
    ensures
        eval(first, model) is Ok ==> eval(
            Tree::Comma(Box::new(first), Box::new(second)),
            model,
        ) == eval(second, model),
        eval(first, model) is Err ==> eval(
            Tree::Comma(Box::new(first), Box::new(second)),
            model,
        ) == eval(first, model),
{
}

/// Prefix `-` negates a number and raises the mismatch at the operator for
/// any other value; applied twice to a number it gives the number back.
pub proof fn minus_negates(operator: TokenView, value: Value)
    requires
        operator.token is Minus,
    ensures
        value matches Value::Number(x) ==> unary(operator, value) == Ok::<Value, Fault>(
            Value::Number(number::negated(x)),
        ) && unary(operator, Value::Number(number::negated(x))) == Ok::<Value, Fault>(value),
        !(value is Number) ==> unary(operator, value) == Err::<Value, Fault>(
            mismatch("Number"@, value, operator),
        ),
{
}

/// `!` never raises an error, and applied twice it gives the truthiness of
/// the value.
pub proof fn negation_twice(operator: TokenView, value: Value)
    requires
        operator.token is Bang,
    ensures
        unary(operator, value) == Ok::<Value, Fault>(Value::from_bool(!value.truthy())),
        unary(operator, unary(operator, value)->Ok_0) == Ok::<Value, Fault>(
            Value::from_bool(value.truthy()),
        ),
{
}

/// The interpreter as a visitor of expressions, with the arithmetic unit
/// that it evaluates with.
pub struct Evaluator<'a, F> {
    pub interpreter: Interpreter,
    pub arith: &'a F,
}

impl<'a, F: Fn(Arithmetic, u64, u64) -> u64> ExprVisitor<Result<Literal, RuntimeError>> for Evaluator<
    'a,
    F,
> {
    open spec fn ready(&self) -> bool {
        forall|op: Arithmetic, a: u64, b: u64| call_requires(*self.arith, (op, a, b))
    }

    open spec fn yields(&self, tree: Tree, out: Result<Literal, RuntimeError>) -> bool {
        forall|model: ArithmeticModel|
            settled(self.arith, model, tree) ==> outcome(out) == #[trigger] eval(tree, model)
    }

    fn visit_grouping(&self, grouping: &Grouping) -> (out: Result<Literal, RuntimeError>) {
        self.interpreter.visit_grouping(grouping, self.arith)
    }

    fn visit_binary(&self, binary: &Binary) -> (out: Result<Literal, RuntimeError>) {
        self.interpreter.visit_binary(binary, self.arith)
    }

    fn visit_literal(&self, literal: &Literal) -> (out: Result<Literal, RuntimeError>) {
        self.interpreter.visit_literal(literal)
    }

    fn visit_unary(&self, unary: &Unary) -> (out: Result<Literal, RuntimeError>) {
        self.interpreter.visit_unary(unary, self.arith)
    }

    fn visit_ternary(&self, ternary: &Ternary) -> (out: Result<Literal, RuntimeError>) {
        self.interpreter.visit_ternary(ternary, self.arith)
    }

    fn visit_comma(&self, comma: &Comma) -> (out: Result<Literal, RuntimeError>) {
        self.interpreter.visit_comma(comma, self.arith)
    }
}

} // verus!

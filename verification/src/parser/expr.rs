//! The expression tree and the values it evaluates to.
use vstd::prelude::*;
use vstd::std_specs::cmp::PartialEqSpecImpl;
use crate::number;
use crate::number::ShowModel;
use crate::scanner::token::Token;
use crate::scanner::token::TokenView;

verus! {

/// A runtime value, also the payload of a literal node. `Number` holds an
/// IEEE-754 binary64 bit pattern.
#[derive(Debug)]
pub enum Literal {
    Number(u64),
    String(String),
    True,
    False,
    Null,
}

/// The mathematical value of a `Literal`.
pub enum Value {
    Number(u64),
    String(Seq<char>),
    True,
    False,
    Null,
}

impl Value {
    /// `False` and `Null` are falsy; everything else is truthy, zero and the
    /// empty string included.
    pub open spec fn truthy(self) -> bool {
        !(self is False || self is Null)
    }

    /// `True` or `False`, as the flag says.
    pub open spec fn from_bool(flag: bool) -> Value {
        if flag {
            Value::True
        } else {
            Value::False
        }
    }

    /// The name of the value's type, for messages only.
    pub open spec fn type_label(self) -> Seq<char> {
        match self {
            Value::Number(_) => "Number"@,
            Value::String(_) => "String"@,
            Value::True => "Bool"@,
            Value::False => "Bool"@,
            Value::Null => "Null"@,
        }
    }

    /// Structural equality; two numbers are equal as IEEE-754 has it.
    pub open spec fn equals(self, other: Value) -> bool {
        match (self, other) {
            (Value::Number(a), Value::Number(b)) => number::same(a, b),
            _ => self == other,
        }
    }

    /// The text shown for the value, a number written as `model` writes it.
    pub open spec fn display(self, model: ShowModel) -> Seq<char> {
        match self {
            Value::Number(x) => model(x),
            Value::String(s) => s,
            Value::True => "True"@,
            Value::False => "False"@,
            Value::Null => "Null"@,
        }
    }
}

impl View for Literal {
    type V = Value;

    open spec fn view(&self) -> Value {
        match self {
            Literal::Number(x) => Value::Number(*x),
            Literal::String(s) => Value::String(s@),
            Literal::True => Value::True,
            Literal::False => Value::False,
            Literal::Null => Value::Null,
        }
    }
}

impl Clone for Literal {
    fn clone(&self) -> (out: Literal)
        ensures
            out@ == self@,
    {
        match self {
            Literal::Number(x) => Literal::Number(*x),
            Literal::String(s) => Literal::String(s.clone()),
            Literal::True => Literal::True,
            Literal::False => Literal::False,
            Literal::Null => Literal::Null,
        }
    }
}

impl PartialEq for Literal {
    fn eq(&self, other: &Literal) -> (out: bool) {
        self.equals(other)
    }
}

impl PartialEqSpecImpl for Literal {
    open spec fn obeys_eq_spec() -> bool {
        true
    }

    open spec fn eq_spec(&self, other: &Literal) -> bool {
        self@.equals(other@)
    }
}

impl Literal {
    /// Structural equality; two numbers are equal as IEEE-754 has it, so a
    /// value that is not a number differs from itself and the two zeros are
    /// equal.
    pub fn equals(&self, other: &Literal) -> (out: bool)
        ensures
            out == self@.equals(other@),
    {
        match (self, other) {
            (Literal::Number(a), Literal::Number(b)) => number::eq(*a, *b),
            (Literal::String(a), Literal::String(b)) => *a == *b,
            (Literal::True, Literal::True) => true,
            (Literal::False, Literal::False) => true,
            (Literal::Null, Literal::Null) => true,
            _ => false,
        }
    }

    /// Whether the value counts as true: all but `False` and `Null` do.
    pub fn is_truthy(expr: &Literal) -> (out: bool)
        ensures
            out == expr@.truthy(),
    {
        match expr {
            Literal::False | Literal::Null => false,
            _ => true,
        }
    }

    /// The truthiness of the value as `True` or `False`.
    pub fn to_bool(expr: &Literal) -> (out: Literal)
        ensures
            out@ == Value::from_bool(expr@.truthy()),
    {
        if Literal::is_truthy(expr) {
            Literal::True
        } else {
            Literal::False
        }
    }

    /// Logical NOT by truthiness.
    pub fn negate(expr: &Literal) -> (out: Literal)
        ensures
            out@ == Value::from_bool(!expr@.truthy()),
    {
        if !Literal::is_truthy(expr) {
            Literal::True
        } else {
            Literal::False
        }
    }

    /// For display only; no decision is taken on it.
    pub fn type_label(expr: &Literal) -> (out: String)
        ensures
            out@ == expr@.type_label(),
    {
        match expr {
            Literal::Number(_) => "Number".to_string(),
            Literal::String(_) => "String".to_string(),
            Literal::True | Literal::False => "Bool".to_string(),
            Literal::Null => "Null".to_string(),
        }
    }

    /// The value's display form. `show` writes a number out.
    pub fn to_text<F: Fn(u64) -> String>(&self, show: &F) -> (out: String)
        requires
            forall|bits: u64| call_requires(*show, (bits,)),
        ensures
            forall|model: ShowModel| number::shows(show, model) ==> out@ == self@.display(model),
            !(self@ is Number) ==> forall|model: ShowModel| out@ == self@.display(model),
    {
        match self {
            Literal::Number(x) => show(*x),
            Literal::String(s) => s.clone(),
            Literal::True => "True".to_string(),
            Literal::False => "False".to_string(),
            Literal::Null => "Null".to_string(),
        }
    }
}

/// A parenthesised expression.
#[derive(Debug)]
pub struct Grouping {
    pub expression: Box<Expr>,
}

/// A prefix operator and its operand.
#[derive(Debug)]
pub struct Unary {
    pub operator: Token,
    pub expression: Box<Expr>,
}

/// An infix operator and its two operands.
#[derive(Debug)]
pub struct Binary {
    pub left: Box<Expr>,
    pub operator: Token,
    pub right: Box<Expr>,
}

/// `condition ? if_true : if_false`.
#[derive(Debug)]
pub struct Ternary {
    pub condition: Box<Expr>,
    pub if_true: Box<Expr>,
    pub if_false: Box<Expr>,
}

/// `expr , next`.
#[derive(Debug)]
pub struct Comma {
    pub expr: Box<Expr>,
    pub next: Box<Expr>,
}

/// An expression: one of six kinds of node, each owning its children.
#[derive(Debug)]
pub enum Expr {
    Grouping(Grouping),
    Binary(Binary),
    Literal(Literal),
    Unary(Unary),
    Ternary(Ternary),
    Comma(Comma),
}

/// The mathematical value of an `Expr`.
pub enum Tree {
    Grouping(Box<Tree>),
    Binary(Box<Tree>, TokenView, Box<Tree>),
    Literal(Value),
    Unary(TokenView, Box<Tree>),
    Ternary(Box<Tree>, Box<Tree>, Box<Tree>),
    Comma(Box<Tree>, Box<Tree>),
}

impl Expr {
    /// The tree that the expression stands for.
    pub open spec fn tree(self) -> Tree
        decreases self,
    {
        match self {
            Expr::Grouping(g) => Tree::Grouping(Box::new((*g.expression).tree())),
            Expr::Binary(b) => Tree::Binary(
                Box::new((*b.left).tree()),
                b.operator@,
                Box::new((*b.right).tree()),
            ),
            Expr::Literal(l) => Tree::Literal(l@),
            Expr::Unary(u) => Tree::Unary(u.operator@, Box::new((*u.expression).tree())),
            Expr::Ternary(t) => Tree::Ternary(
                Box::new((*t.condition).tree()),
                Box::new((*t.if_true).tree()),
                Box::new((*t.if_false).tree()),
            ),
            Expr::Comma(c) => Tree::Comma(Box::new((*c.expr).tree()), Box::new((*c.next).tree())),
        }
    }
}

impl View for Expr {
    type V = Tree;

    open spec fn view(&self) -> Tree {
        self.tree()
    }
}

/// A consumer of expressions: one operation over the six kinds of node,
/// written once for each kind. The tree is only read.
pub trait ExprVisitor<T> {
    /// What has to hold of the visitor before it is used. Nothing, unless a
    /// visitor says otherwise.
    open spec fn ready(&self) -> bool {
        true
    }

    /// Whether `out` is what the visitor makes of `tree`. A visitor that
    /// says nothing of its results admits any.
    open spec fn yields(&self, tree: Tree, out: T) -> bool {
        true
    }

    /// Hands the node to the method of its kind.
    fn visit_expr(&self, expr: &Expr) -> (out: T)
        requires
            self.ready(),
        ensures
            self.yields(expr@, out),
    {
        match expr {
            Expr::Grouping(x) => self.visit_grouping(x),
            Expr::Binary(x) => self.visit_binary(x),
            Expr::Literal(x) => self.visit_literal(x),
            Expr::Unary(x) => self.visit_unary(x),
            Expr::Ternary(x) => self.visit_ternary(x),
            Expr::Comma(x) => self.visit_comma(x),
        }
    }

    fn visit_grouping(&self, grouping: &Grouping) -> (out: T)
        requires
            self.ready(),
        ensures
            self.yields(Expr::Grouping(*grouping)@, out),
    ;

    fn visit_binary(&self, binary: &Binary) -> (out: T)
        requires
            self.ready(),
        ensures
            self.yields(Expr::Binary(*binary)@, out),
    ;

    fn visit_literal(&self, literal: &Literal) -> (out: T)
        requires
            self.ready(),
        ensures
            self.yields(Expr::Literal(*literal)@, out),
    ;

    fn visit_unary(&self, unary: &Unary) -> (out: T)
        requires
            self.ready(),
        ensures
            self.yields(Expr::Unary(*unary)@, out),
    ;

    fn visit_ternary(&self, ternary: &Ternary) -> (out: T)
        requires
            self.ready(),
        ensures
            self.yields(Expr::Ternary(*ternary)@, out),
    ;

    fn visit_comma(&self, comma: &Comma) -> (out: T)
        requires
            self.ready(),
        ensures
            self.yields(Expr::Comma(*comma)@, out),
    ;
}

impl Expr {
    /// Hands the expression to a visitor and returns what the visitor makes
    /// of it.
    pub fn accept<T, V: ExprVisitor<T>>(&self, visitor: &V) -> (out: T)
        requires
            visitor.ready(),
        ensures
            visitor.yields(self@, out),
    {
        visitor.visit_expr(self)
    }
}

} // verus!

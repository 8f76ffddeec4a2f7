//! A printer that writes a tree in prefix form, every node in parentheses.
use vstd::prelude::*;
use crate::number::shows;
use crate::number::ShowModel;
use crate::parser::expr::Binary;
use crate::parser::expr::Comma;
use crate::parser::expr::Expr;
use crate::parser::expr::ExprVisitor;
use crate::parser::expr::Grouping;
use crate::parser::expr::Literal;
use crate::parser::expr::Ternary;
use crate::parser::expr::Tree;
use crate::parser::expr::Unary;
use crate::parser::expr::Value;
use crate::parser::interpreter::numberless;
use crate::scanner::token::Token;
use crate::scanner::token::TokenView;
use crate::scanner::token_type::TokenKind;
use crate::scanner::token_type::TokenType;

verus! {

/// The printer. It holds nothing.
#[derive(Clone, Copy, Debug)]
pub struct AstPrinter;

/// The parts, each behind a space.
pub open spec fn spaced(parts: Seq<Seq<char>>) -> Seq<char>
    decreases parts.len(),
{
    if parts.len() == 0 {
        Seq::empty()
    } else {
        spaced(parts.drop_last()) + seq![' '] + parts.last()
    }
}

/// `(name part part ...)`.
pub open spec fn parenthesized(name: Seq<char>, parts: Seq<Seq<char>>) -> Seq<char> {
    seq!['('] + name + spaced(parts) + seq![')']
}

/// A literal as the printer writes it, a number as `model` writes it.
pub open spec fn printed_value(value: Value, model: ShowModel) -> Seq<char> {
    match value {
        Value::Number(x) => model(x),
        Value::String(s) => s,
        Value::True => "true"@,
        Value::False => "false"@,
        Value::Null => "null"@,
    }
}

/// A tree in prefix form: an operator node under its lexeme, the others
/// under the name of their kind.
pub open spec fn printed(tree: Tree, model: ShowModel) -> Seq<char>
    decreases tree,
{
    match tree {
        Tree::Grouping(inner) => parenthesized("group"@, seq![printed(*inner, model)]),
        Tree::Binary(left, operator, right) => parenthesized(
            operator.lexeme,
            seq![printed(*left, model), printed(*right, model)],
        ),
        Tree::Literal(value) => printed_value(value, model),
        Tree::Unary(operator, operand) => parenthesized(
            operator.lexeme,
            seq![printed(*operand, model)],
        ),
        Tree::Ternary(condition, if_true, if_false) => parenthesized(
            "ternary"@,
            seq![printed(*condition, model), printed(*if_true, model), printed(*if_false, model)],
        ),
        Tree::Comma(first, second) => parenthesized(
            "comma"@,
            seq![printed(*first, model), printed(*second, model)],
        ),
    }
}

/// The texts of a run of strings, in order.
pub open spec fn texts(parts: Seq<String>) -> Seq<Seq<char>> {
    parts.map_values(|part: String| part@)
}

impl AstPrinter {
    /// Writes the expression in prefix form. `show` writes a number out; what
    /// is written hangs on it only where a number literal stands in the tree.
    pub fn print<F: Fn(u64) -> String>(&self, expr: &Expr, show: &F) -> (out: String)
        requires
            forall|bits: u64| call_requires(*show, (bits,)),
        ensures
            forall|model: ShowModel|
                shows(show, model) || numberless(expr@) ==> out@ == #[trigger] printed(
                    expr@,
                    model,
                ),
        decreases expr, 1nat,
    {
        match expr {
            Expr::Grouping(grouping) => self.visit_grouping(grouping, show),
            Expr::Binary(binary) => self.visit_binary(binary, show),
            Expr::Literal(literal) => self.visit_literal(literal, show),
            Expr::Unary(unary) => self.visit_unary(unary, show),
            Expr::Ternary(ternary) => self.visit_ternary(ternary, show),
            Expr::Comma(comma) => self.visit_comma(comma, show),
        }
    }

    /// `(group inner)`.
    pub fn visit_grouping<F: Fn(u64) -> String>(&self, grouping: &Grouping, show: &F) -> (out:
        String)
        requires
            forall|bits: u64| call_requires(*show, (bits,)),
        ensures
            forall|model: ShowModel|
                shows(show, model) || numberless(Expr::Grouping(*grouping)@) ==> out@
                    == #[trigger] printed(
                    Expr::Grouping(*grouping)@,
                    model,
                ),
        decreases grouping, 0nat,
    {
        let mut parts: Vec<String> = Vec::new();
        parts.push(self.print(&grouping.expression, show));
        let out = self.parenthesize("group", &parts);
        assert forall|model: ShowModel|
            shows(show, model) || numberless(Expr::Grouping(*grouping)@) implies out@
            == printed(Expr::Grouping(*grouping)@, model) by {
            assert(texts(parts@) =~= seq![printed(grouping.expression@, model)]);
        }
        out
    }

    /// `(operator left right)`.
    pub fn visit_binary<F: Fn(u64) -> String>(&self, binary: &Binary, show: &F) -> (out: String)
        requires
            forall|bits: u64| call_requires(*show, (bits,)),
        ensures
            forall|model: ShowModel|
                shows(show, model) || numberless(Expr::Binary(*binary)@) ==> out@
                    == #[trigger] printed(
                    Expr::Binary(*binary)@,
                    model,
                ),
        decreases binary, 0nat,
    {
        let mut parts: Vec<String> = Vec::new();
        parts.push(self.print(&binary.left, show));
        parts.push(self.print(&binary.right, show));
        let out = self.parenthesize(binary.operator.lexeme.as_str(), &parts);
        assert forall|model: ShowModel|
            shows(show, model) || numberless(Expr::Binary(*binary)@) implies out@
            == printed(Expr::Binary(*binary)@, model) by {
            assert(texts(parts@) =~= seq![
                printed(binary.left@, model),
                printed(binary.right@, model),
            ]);
        }
        out
    }

    /// The literal itself; the three words in lower case.
    pub fn visit_literal<F: Fn(u64) -> String>(&self, literal: &Literal, show: &F) -> (out: String)
        requires
            forall|bits: u64| call_requires(*show, (bits,)),
        ensures
            forall|model: ShowModel|
                shows(show, model) || !(literal@ is Number) ==> out@ == #[trigger] printed_value(
                    literal@,
                    model,
                ),
    {
        match literal {
            Literal::Number(x) => show(*x),
            Literal::String(s) => s.clone(),
            Literal::True => "true".to_string(),
            Literal::False => "false".to_string(),
            Literal::Null => "null".to_string(),
        }
    }

    /// `(operator operand)`.
    pub fn visit_unary<F: Fn(u64) -> String>(&self, unary: &Unary, show: &F) -> (out: String)
        requires
            forall|bits: u64| call_requires(*show, (bits,)),
        ensures
            forall|model: ShowModel|
                shows(show, model) || numberless(Expr::Unary(*unary)@) ==> out@
                    == #[trigger] printed(
                    Expr::Unary(*unary)@,
                    model,
                ),
        decreases unary, 0nat,
    {
        let mut parts: Vec<String> = Vec::new();
        parts.push(self.print(&unary.expression, show));
        let out = self.parenthesize(unary.operator.lexeme.as_str(), &parts);
        assert forall|model: ShowModel|
            shows(show, model) || numberless(Expr::Unary(*unary)@) implies out@
            == printed(Expr::Unary(*unary)@, model) by {
            assert(texts(parts@) =~= seq![printed(unary.expression@, model)]);
        }
        out
    }

    /// `(ternary condition if_true if_false)`.
    pub fn visit_ternary<F: Fn(u64) -> String>(&self, ternary: &Ternary, show: &F) -> (out: String)
        requires
            forall|bits: u64| call_requires(*show, (bits,)),
        ensures
            forall|model: ShowModel|
                shows(show, model) || numberless(Expr::Ternary(*ternary)@) ==> out@
                    == #[trigger] printed(
                    Expr::Ternary(*ternary)@,
                    model,
                ),
        decreases ternary, 0nat,
    {
        let mut parts: Vec<String> = Vec::new();
        parts.push(self.print(&ternary.condition, show));
        parts.push(self.print(&ternary.if_true, show));
        parts.push(self.print(&ternary.if_false, show));
        let out = self.parenthesize("ternary", &parts);
        assert forall|model: ShowModel|
            shows(show, model) || numberless(Expr::Ternary(*ternary)@) implies out@
            == printed(Expr::Ternary(*ternary)@, model) by {
            assert(texts(parts@) =~= seq![
                printed(ternary.condition@, model),
                printed(ternary.if_true@, model),
                printed(ternary.if_false@, model),
            ]);
        }
        out
    }

    /// `(comma first second)`.
    pub fn visit_comma<F: Fn(u64) -> String>(&self, comma: &Comma, show: &F) -> (out: String)
        requires
            forall|bits: u64| call_requires(*show, (bits,)),
        ensures
            forall|model: ShowModel|
                shows(show, model) || numberless(Expr::Comma(*comma)@) ==> out@
                    == #[trigger] printed(
                    Expr::Comma(*comma)@,
                    model,
                ),
        decreases comma, 0nat,
    {
        let mut parts: Vec<String> = Vec::new();
        parts.push(self.print(&comma.expr, show));
        parts.push(self.print(&comma.next, show));
        let out = self.parenthesize("comma", &parts);
        assert forall|model: ShowModel|
            shows(show, model) || numberless(Expr::Comma(*comma)@) implies out@
            == printed(Expr::Comma(*comma)@, model) by {
            assert(texts(parts@) =~= seq![printed(comma.expr@, model), printed(comma.next@, model)]);
        }
        out
    }

    /// Puts a name and the printed children in one pair of parentheses.
    pub fn parenthesize(&self, name: &str, parts: &Vec<String>) -> (out: String)
        ensures
            out@ == parenthesized(name@, texts(parts@)),
    {
        let mut out = String::new();
        out.push('(');
        out.append(name);
        let mut i: usize = 0;
        while i < parts.len()
            invariant
                i <= parts.len(),
                out@ == seq!['('] + name@ + spaced(texts(parts@).take(i as int)),
            decreases parts.len() - i,
        {
            out.push(' ');
            out.append(parts[i].as_str());
            i += 1;
            assert(texts(parts@).take(i as int).drop_last() =~= texts(parts@).take(i - 1));
            assert(out@ =~= seq!['('] + name@ + spaced(texts(parts@).take(i as int)));
        }
        assert(texts(parts@).take(i as int) =~= texts(parts@));
        out.push(')');
        assert(out@ =~= parenthesized(name@, texts(parts@)));
        out
    }
}

/// The pattern of 123.
pub const SAMPLE_LEFT: u64 = 0x405e_c000_0000_0000;

/// The pattern of 45.67.
pub const SAMPLE_RIGHT: u64 = 0x4046_d5c2_8f5c_28f6;

/// A token of the sample, at the start of the text.
pub open spec fn sample_token(kind: TokenKind, lexeme: Seq<char>) -> TokenView {
    TokenView { token: kind, lexeme, line: 1, column: 1 }
}

/// The sample tree: `-123 * (45.67)`.
pub open spec fn sample() -> Tree {
    Tree::Binary(
        Box::new(
            Tree::Unary(
                sample_token(TokenKind::Minus, "-"@),
                Box::new(Tree::Literal(Value::Number(SAMPLE_LEFT))),
            ),
        ),
        sample_token(TokenKind::Star, "*"@),
        Box::new(Tree::Grouping(Box::new(Tree::Literal(Value::Number(SAMPLE_RIGHT))))),
    )
}

/// Prints the sample tree, which reads `(* (- 123) (group 45.67))` where
/// `show` writes numbers as usual.
pub fn ast_test<F: Fn(u64) -> String>(show: &F) -> (out: String)
    requires
        forall|bits: u64| call_requires(*show, (bits,)),
    ensures
        forall|model: ShowModel| shows(show, model) ==> out@ == #[trigger] printed(sample(), model),
{
    let expr = Expr::Binary(
        Binary {
            left: Box::new(
                Expr::Unary(
                    Unary {
                        operator: Token::new(
                            TokenType::Minus,
                            "-".to_string(),
                            1,
                            1,
                        ),
                        expression: Box::new(Expr::Literal(Literal::Number(SAMPLE_LEFT))),
                    },
                ),
            ),
            operator: Token::new(
                TokenType::Star,
                "*".to_string(),
                1,
                1,
            ),
            right: Box::new(
                Expr::Grouping(
                    Grouping { expression: Box::new(Expr::Literal(Literal::Number(SAMPLE_RIGHT))) },
                ),
            ),
        },
    );
    assert(expr@ == sample()) by {
        reveal_with_fuel(Expr::tree, 4);
    }
    AstPrinter.print(&expr, show)
}

/// The printer as a visitor of expressions, with the function that writes a
/// number out.
pub struct Printer<'a, F> {
    pub printer: AstPrinter,
    pub show: &'a F,
}

impl<'a, F: Fn(u64) -> String> ExprVisitor<String> for Printer<'a, F> {
    open spec fn ready(&self) -> bool {
        forall|bits: u64| call_requires(*self.show, (bits,))
    }

    open spec fn yields(&self, tree: Tree, out: String) -> bool {
        forall|model: ShowModel|
            shows(self.show, model) || numberless(tree) ==> out@ == #[trigger] printed(tree, model)
    }

    fn visit_grouping(&self, grouping: &Grouping) -> (out: String) {
        self.printer.visit_grouping(grouping, self.show)
    }

    fn visit_binary(&self, binary: &Binary) -> (out: String) {
        self.printer.visit_binary(binary, self.show)
    }

    fn visit_literal(&self, literal: &Literal) -> (out: String) {
        self.printer.visit_literal(literal, self.show)
    }

    fn visit_unary(&self, unary: &Unary) -> (out: String) {
        self.printer.visit_unary(unary, self.show)
    }

    fn visit_ternary(&self, ternary: &Ternary) -> (out: String) {
        self.printer.visit_ternary(ternary, self.show)
    }

    fn visit_comma(&self, comma: &Comma) -> (out: String) {
        self.printer.visit_comma(comma, self.show)
    }
}

} // verus!

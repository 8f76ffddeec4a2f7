//! What holds of the grammar whatever the tokens are.
use vstd::prelude::*;
use crate::parser::at_end;
use crate::parser::expr::Tree;
use crate::parser::expr::Value;
use crate::scanner::token_type::TokenKind;
use crate::parser::comma;
use crate::parser::comma_rest;
use crate::parser::expression;
use crate::parser::infix;
use crate::parser::interpreter::numberless;
use crate::parser::inside;
use crate::parser::infix_rest;
use crate::parser::operand;
use crate::parser::primary;
use crate::parser::remaining;
use crate::parser::ternary;
use crate::parser::unary;
use crate::parser::Level;
use crate::parser::Parsed;
use crate::scanner::token::TokenView;

verus! {

/// A rule that starts inside the sequence ends inside it, and before the
/// end it consumes at least one token.
pub open spec fn advances(tokens: Seq<TokenView>, i: int, parsed: Parsed) -> bool {
    &&& inside(tokens, i + parsed.used)
    &&& !at_end(tokens, i) ==> parsed.used >= 1
    &&& parsed.result matches Err(failure) ==> inside(tokens, failure.at)
}

/// `primary` advances.
pub proof fn primary_advances(tokens: Seq<TokenView>, i: int)
    requires
        inside(tokens, i),
    ensures
        advances(tokens, i, primary(tokens, i)),
    decreases remaining(tokens, i), 0nat,
{
    if !at_end(tokens, i) && tokens[i].token is LeftParen {
        expression_advances(tokens, i + 1);
    }
}

/// `unary` advances.
pub proof fn unary_advances(tokens: Seq<TokenView>, i: int)
    requires
        inside(tokens, i),
    ensures
        advances(tokens, i, unary(tokens, i)),
    decreases remaining(tokens, i), 1nat,
{
    if !at_end(tokens, i) && (tokens[i].token is Bang || tokens[i].token is Minus) {
        unary_advances(tokens, i + 1);
    } else {
        primary_advances(tokens, i);
    }
}

/// An operand of any level advances.
pub proof fn operand_advances(tokens: Seq<TokenView>, i: int, level: Level)
    requires
        inside(tokens, i),
    ensures
        advances(tokens, i, operand(tokens, i, level)),
    decreases remaining(tokens, i), 2 * level.height(),
{
    match level.tighter() {
        Some(tighter) => infix_advances(tokens, i, tighter),
        None => unary_advances(tokens, i),
    }
}

/// What follows a left operand ends inside the sequence; it may be nothing.
pub proof fn infix_rest_advances(
    tokens: Seq<TokenView>,
    i: int,
    level: Level,
    left: Tree,
)
    requires
        inside(tokens, i),
    ensures
        inside(tokens, i + infix_rest(tokens, i, level, left).used),
        infix_rest(tokens, i, level, left).result matches Err(failure) ==> inside(
            tokens,
            failure.at,
        ),
    decreases remaining(tokens, i), 2 * level.height(),
{
    if !at_end(tokens, i) && level.has(tokens[i].token) {
        operand_advances(tokens, i + 1, level);
        let right = operand(tokens, i + 1, level);
        if let Ok(tree) = right.result {
            infix_rest_advances(
                tokens,
                i + 1 + right.used,
                level,
                Tree::Binary(Box::new(left), tokens[i], Box::new(tree)),
            );
        }
    }
}

/// A level of infix operators advances.
pub proof fn infix_advances(tokens: Seq<TokenView>, i: int, level: Level)
    requires
        inside(tokens, i),
    ensures
        advances(tokens, i, infix(tokens, i, level)),
    decreases remaining(tokens, i), 2 * level.height() + 1,
{
    operand_advances(tokens, i, level);
    let first = operand(tokens, i, level);
    if let Ok(tree) = first.result {
        infix_rest_advances(tokens, i + first.used, level, tree);
    }
}

/// `ternary` advances.
pub proof fn ternary_advances(tokens: Seq<TokenView>, i: int)
    requires
        inside(tokens, i),
    ensures
        advances(tokens, i, ternary(tokens, i)),
    decreases remaining(tokens, i), 10nat,
{
    infix_advances(tokens, i, Level::Equality);
    let condition = infix(tokens, i, Level::Equality);
    let question = i + condition.used;
    if condition.result is Ok && !at_end(tokens, question) && tokens[question].token is Question {
        expression_advances(tokens, question + 1);
        let if_true = expression(tokens, question + 1);
        let colon = question + 1 + if_true.used;
        if if_true.result is Ok && !at_end(tokens, colon) && tokens[colon].token is Colon {
            expression_advances(tokens, colon + 1);
        }
    }
}

/// What follows a left operand ends inside the sequence; it may be nothing.
pub proof fn comma_rest_advances(tokens: Seq<TokenView>, i: int, left: Tree)
    requires
        inside(tokens, i),
    ensures
        inside(tokens, i + comma_rest(tokens, i, left).used),
        comma_rest(tokens, i, left).result matches Err(failure) ==> inside(tokens, failure.at),
    decreases remaining(tokens, i), 11nat,
{
    if !at_end(tokens, i) && tokens[i].token is Comma {
        ternary_advances(tokens, i + 1);
        let right = ternary(tokens, i + 1);
        if let Ok(tree) = right.result {
            comma_rest_advances(
                tokens,
                i + 1 + right.used,
                Tree::Comma(Box::new(left), Box::new(tree)),
            );
        }
    }
}

/// `comma` advances.
pub proof fn comma_advances(tokens: Seq<TokenView>, i: int)
    requires
        inside(tokens, i),
    ensures
        advances(tokens, i, comma(tokens, i)),
    decreases remaining(tokens, i), 12nat,
{
    ternary_advances(tokens, i);
    let first = ternary(tokens, i);
    if let Ok(tree) = first.result {
        comma_rest_advances(tokens, i + first.used, tree);
    }
}

/// Every attempt before the end moves the cursor on, whether it yields a
/// tree or fails, and never past the last token: a loop that parses until
/// the end is reached comes to an end.
pub proof fn expression_advances(tokens: Seq<TokenView>, i: int)
    requires
        inside(tokens, i),
    ensures
        advances(tokens, i, expression(tokens, i)),
    decreases remaining(tokens, i), 13nat,
{
    comma_advances(tokens, i);
}

/// How tightly the top of a tree binds, from the comma (0) to a literal or a
/// group (7).
pub open spec fn tightness(tree: Tree) -> nat {
    match tree {
        Tree::Comma(_, _) => 0,
        Tree::Ternary(_, _, _) => 1,
        Tree::Binary(_, operator, _) => binding(operator.token),
        Tree::Unary(_, _) => 6,
        Tree::Grouping(_) => 7,
        Tree::Literal(_) => 7,
    }
}

/// How tightly an infix operator binds; 6 for a token that is none.
pub open spec fn binding(kind: TokenKind) -> nat {
    if Level::Equality.has(kind) {
        2
    } else if Level::Comparison.has(kind) {
        3
    } else if Level::Term.has(kind) {
        4
    } else if Level::Factor.has(kind) {
        5
    } else {
        6
    }
}

/// How tightly the operators of a level bind.
pub open spec fn level_binding(level: Level) -> nat {
    (6 - level.height()) as nat
}

/// The shape that precedence and associativity give a tree.
///
/// An infix operator has nothing looser than itself on its left and only
/// what is tighter on its right, so each level folds to the left and a
/// tighter operator lies below a looser one. A prefix operator has a prefix
/// operator, a literal or a group as its operand. The condition of a
/// conditional is tighter than a conditional, and so is the right side of a
/// comma; the arms of a conditional are whole expressions. Inside a group
/// the rules start afresh.
pub open spec fn shaped(tree: Tree) -> bool
    decreases tree,
{
    match tree {
        Tree::Literal(_) => true,
        Tree::Grouping(inner) => shaped(*inner),
        Tree::Unary(operator, operand) => {
            &&& operator.token is Bang || operator.token is Minus
            &&& shaped(*operand)
            &&& tightness(*operand) >= 6
        },
        Tree::Binary(left, operator, right) => {
            &&& 2 <= binding(operator.token) <= 5
            &&& shaped(*left)
            &&& shaped(*right)
            &&& tightness(*left) >= binding(operator.token)
            &&& tightness(*right) > binding(operator.token)
        },
        Tree::Ternary(condition, if_true, if_false) => {
            &&& shaped(*condition)
            &&& shaped(*if_true)
            &&& shaped(*if_false)
            &&& tightness(*condition) >= 2
        },
        Tree::Comma(first, second) => {
            &&& shaped(*first)
            &&& shaped(*second)
            &&& tightness(*second) >= 1
        },
    }
}

/// What a token or a node of a tree is written as.
pub enum Written {
    Value(Value),
    Operator(TokenView),
    Open,
    Close,
    Question,
    Colon,
    Comma,
}

/// A tree written out from left to right.
pub open spec fn written(tree: Tree) -> Seq<Written>
    decreases tree,
{
    match tree {
        Tree::Literal(value) => seq![Written::Value(value)],
        Tree::Grouping(inner) => seq![Written::Open] + written(*inner) + seq![Written::Close],
        Tree::Unary(operator, operand) => seq![Written::Operator(operator)] + written(*operand),
        Tree::Binary(left, operator, right) => written(*left) + seq![Written::Operator(operator)]
            + written(*right),
        Tree::Ternary(condition, if_true, if_false) => written(*condition) + seq![
            Written::Question,
        ] + written(*if_true) + seq![Written::Colon] + written(*if_false),
        Tree::Comma(first, second) => written(*first) + seq![Written::Comma] + written(*second),
    }
}

/// What a token is written as: a literal as its value, the brackets and
/// separators as themselves, any other token as an operator.
pub open spec fn spelled(token: TokenView) -> Written {
    match token.token {
        TokenKind::False => Written::Value(Value::False),
        TokenKind::True => Written::Value(Value::True),
        TokenKind::Null => Written::Value(Value::Null),
        TokenKind::Number(x) => Written::Value(Value::Number(x)),
        TokenKind::String(s) => Written::Value(Value::String(s)),
        TokenKind::LeftParen => Written::Open,
        TokenKind::RightParen => Written::Close,
        TokenKind::Question => Written::Question,
        TokenKind::Colon => Written::Colon,
        TokenKind::Comma => Written::Comma,
        _ => Written::Operator(token),
    }
}

/// The tokens from `from` up to `to`, written out.
pub open spec fn spelling(tokens: Seq<TokenView>, from: int, to: int) -> Seq<Written> {
    tokens.subrange(from, to).map_values(|t: TokenView| spelled(t))
}

/// A tree that a rule yields is made of the tokens that the rule consumed,
/// in their order, has the shape that precedence and associativity give,
/// and binds at its top at least as tightly as the rule.
pub open spec fn sound(tokens: Seq<TokenView>, i: int, parsed: Parsed, least: nat) -> bool {
    parsed.result matches Ok(tree) ==> {
        &&& shaped(tree)
        &&& tightness(tree) >= least
        &&& written(tree) == spelling(tokens, i, i + parsed.used)
    }
}

/// Two stretches of tokens that meet, written out, make the whole stretch.
proof fn spelling_joins(tokens: Seq<TokenView>, from: int, mid: int, to: int)
    requires
        0 <= from <= mid <= to <= tokens.len(),
    ensures
        spelling(tokens, from, to) == spelling(tokens, from, mid) + spelling(tokens, mid, to),
{
    assert(spelling(tokens, from, to) =~= spelling(tokens, from, mid) + spelling(
        tokens,
        mid,
        to,
    ));
}

/// One token written out.
proof fn spelling_one(tokens: Seq<TokenView>, at: int)
    requires
        0 <= at < tokens.len(),
    ensures
        spelling(tokens, at, at + 1) == seq![spelled(tokens[at])],
{
    assert(spelling(tokens, at, at + 1) =~= seq![spelled(tokens[at])]);
}

/// `primary` is sound; its tree is a literal or a group.
pub proof fn primary_sound(tokens: Seq<TokenView>, i: int)
    requires
        inside(tokens, i),
    ensures
        sound(tokens, i, primary(tokens, i), 7),
    decreases remaining(tokens, i), 0nat,
{
    if !at_end(tokens, i) {
        spelling_one(tokens, i);
        if tokens[i].token is LeftParen {
            expression_sound(tokens, i + 1);
            expression_advances(tokens, i + 1);
            let inner = expression(tokens, i + 1);
            let close = i + 1 + inner.used;
            if inner.result is Ok && !at_end(tokens, close)
                && tokens[close].token is RightParen {
                spelling_one(tokens, close);
                spelling_joins(tokens, i, i + 1, close + 1);
                spelling_joins(tokens, i + 1, close, close + 1);
                let tree = Tree::Grouping(Box::new(inner.result->Ok_0));
                assert(written(tree) =~= spelling(tokens, i, close + 1));
            }
        }
    }
}

/// `unary` is sound; its tree binds as tightly as a prefix operator.
pub proof fn unary_sound(tokens: Seq<TokenView>, i: int)
    requires
        inside(tokens, i),
    ensures
        sound(tokens, i, unary(tokens, i), 6),
    decreases remaining(tokens, i), 1nat,
{
    if !at_end(tokens, i) && (tokens[i].token is Bang || tokens[i].token is Minus) {
        unary_sound(tokens, i + 1);
        unary_advances(tokens, i + 1);
        spelling_one(tokens, i);
        spelling_joins(tokens, i, i + 1, i + 1 + unary(tokens, i + 1).used);
    } else {
        primary_sound(tokens, i);
    }
}

/// An operand of a level is sound and binds more tightly than the level.
pub proof fn operand_sound(tokens: Seq<TokenView>, i: int, level: Level)
    requires
        inside(tokens, i),
    ensures
        sound(tokens, i, operand(tokens, i, level), level_binding(level) + 1),
    decreases remaining(tokens, i), 2 * level.height(),
{
    match level.tighter() {
        Some(tighter) => infix_sound(tokens, i, tighter),
        None => unary_sound(tokens, i),
    }
}

/// What is folded onto a sound left operand that reaches from `start` to
/// `i` is sound from `start` on.
pub proof fn infix_rest_sound(
    tokens: Seq<TokenView>,
    start: int,
    i: int,
    level: Level,
    left: Tree,
)
    requires
        inside(tokens, i),
        0 <= start <= i,
        shaped(left),
        tightness(left) >= level_binding(level),
        written(left) == spelling(tokens, start, i),
    ensures
        ({
            let rest = infix_rest(tokens, i, level, left);
            sound(
                tokens,
                start,
                Parsed { result: rest.result, used: (i - start + rest.used) as nat },
                level_binding(level),
            )
        }),
    decreases remaining(tokens, i), 2 * level.height(),
{
    if !at_end(tokens, i) && level.has(tokens[i].token) {
        operand_sound(tokens, i + 1, level);
        operand_advances(tokens, i + 1, level);
        let right = operand(tokens, i + 1, level);
        if let Ok(tree) = right.result {
            let next = i + 1 + right.used;
            let folded = Tree::Binary(Box::new(left), tokens[i], Box::new(tree));
            spelling_one(tokens, i);
            spelling_joins(tokens, start, i, next);
            spelling_joins(tokens, i, i + 1, next);
            assert(written(folded) =~= spelling(tokens, start, next));
            infix_rest_sound(tokens, start, next, level, folded);
        }
    }
}

/// A level of infix operators is sound and binds as tightly as the level.
pub proof fn infix_sound(tokens: Seq<TokenView>, i: int, level: Level)
    requires
        inside(tokens, i),
    ensures
        sound(tokens, i, infix(tokens, i, level), level_binding(level)),
    decreases remaining(tokens, i), 2 * level.height() + 1,
{
    operand_sound(tokens, i, level);
    operand_advances(tokens, i, level);
    let first = operand(tokens, i, level);
    if let Ok(tree) = first.result {
        infix_rest_sound(tokens, i, i + first.used, level, tree);
    }
}

/// `ternary` is sound; its tree binds as tightly as a conditional.
pub proof fn ternary_sound(tokens: Seq<TokenView>, i: int)
    requires
        inside(tokens, i),
    ensures
        sound(tokens, i, ternary(tokens, i), 1),
    decreases remaining(tokens, i), 10nat,
{
    infix_sound(tokens, i, Level::Equality);
    infix_advances(tokens, i, Level::Equality);
    let condition = infix(tokens, i, Level::Equality);
    let question = i + condition.used;
    if condition.result is Ok && !at_end(tokens, question) && tokens[question].token is Question {
        expression_sound(tokens, question + 1);
        expression_advances(tokens, question + 1);
        let if_true = expression(tokens, question + 1);
        let colon = question + 1 + if_true.used;
        if if_true.result is Ok && !at_end(tokens, colon) && tokens[colon].token is Colon {
            expression_sound(tokens, colon + 1);
            expression_advances(tokens, colon + 1);
            let if_false = expression(tokens, colon + 1);
            let end = colon + 1 + if_false.used;
            if let Ok(second) = if_false.result {
                spelling_one(tokens, question);
                spelling_one(tokens, colon);
                spelling_joins(tokens, i, question, end);
                spelling_joins(tokens, question, question + 1, end);
                spelling_joins(tokens, question + 1, colon, end);
                spelling_joins(tokens, colon, colon + 1, end);
                let tree = Tree::Ternary(
                    Box::new(condition.result->Ok_0),
                    Box::new(if_true.result->Ok_0),
                    Box::new(second),
                );
                assert(written(tree) =~= spelling(tokens, i, end));
            }
        }
    }
}

/// What is folded onto a sound left operand that reaches from `start` to
/// `i` is sound from `start` on.
pub proof fn comma_rest_sound(tokens: Seq<TokenView>, start: int, i: int, left: Tree)
    requires
        inside(tokens, i),
        0 <= start <= i,
        shaped(left),
        written(left) == spelling(tokens, start, i),
    ensures
        ({
            let rest = comma_rest(tokens, i, left);
            sound(
                tokens,
                start,
                Parsed { result: rest.result, used: (i - start + rest.used) as nat },
                0,
            )
        }),
    decreases remaining(tokens, i), 11nat,
{
    if !at_end(tokens, i) && tokens[i].token is Comma {
        ternary_sound(tokens, i + 1);
        ternary_advances(tokens, i + 1);
        let right = ternary(tokens, i + 1);
        if let Ok(tree) = right.result {
            let next = i + 1 + right.used;
            let folded = Tree::Comma(Box::new(left), Box::new(tree));
            spelling_one(tokens, i);
            spelling_joins(tokens, start, i, next);
            spelling_joins(tokens, i, i + 1, next);
            assert(written(folded) =~= spelling(tokens, start, next));
            comma_rest_sound(tokens, start, next, folded);
        }
    }
}

/// `comma` is sound.
pub proof fn comma_sound(tokens: Seq<TokenView>, i: int)
    requires
        inside(tokens, i),
    ensures
        sound(tokens, i, comma(tokens, i), 0),
    decreases remaining(tokens, i), 12nat,
{
    ternary_sound(tokens, i);
    ternary_advances(tokens, i);
    let first = ternary(tokens, i);
    if let Ok(tree) = first.result {
        comma_rest_sound(tokens, i, i + first.used, tree);
    }
}

/// Every tree that the parser yields is made of exactly the tokens that it
/// consumed, in their order, and has the shape that precedence and
/// associativity give.
pub proof fn expression_sound(tokens: Seq<TokenView>, i: int)
    requires
        inside(tokens, i),
    ensures
        sound(tokens, i, expression(tokens, i), 0),
    decreases remaining(tokens, i), 13nat,
{
    comma_sound(tokens, i);
}

/// No number token stands among the tokens.
pub open spec fn numberless_tokens(tokens: Seq<TokenView>) -> bool {
    forall|k: int| 0 <= k < tokens.len() ==> !(#[trigger] tokens[k].token is Number)
}

/// No number stands in what is written.
pub open spec fn numberless_writing(writing: Seq<Written>) -> bool {
    forall|k: int|
        0 <= k < writing.len() ==> !(#[trigger] writing[k] matches Written::Value(Value::Number(_)))
}

/// Where no number stands in two writings put together, none stands in
/// either.
proof fn numberless_parts(first: Seq<Written>, second: Seq<Written>)
    requires
        numberless_writing(first + second),
    ensures
        numberless_writing(first),
        numberless_writing(second),
{
    let whole = first + second;
    assert forall|k: int| 0 <= k < first.len() implies !(#[trigger] first[k] matches Written::Value(
        Value::Number(_),
    )) by {
        assert(whole[k] == first[k]);
    }
    assert forall|k: int| 0 <= k < second.len() implies !(#[trigger] second[k] matches Written::Value(
        Value::Number(_),
    )) by {
        assert(whole[first.len() + k] == second[k]);
    }
}

/// A tree that is written without a number holds no number literal.
pub proof fn written_without_numbers(tree: Tree)
    requires
        numberless_writing(written(tree)),
    ensures
        numberless(tree),
    decreases tree,
{
    match tree {
        Tree::Literal(value) => {
            assert(written(tree)[0] == Written::Value(value));
        },
        Tree::Grouping(inner) => {
            numberless_parts(seq![Written::Open] + written(*inner), seq![Written::Close]);
            numberless_parts(seq![Written::Open], written(*inner));
            written_without_numbers(*inner);
        },
        Tree::Unary(operator, operand) => {
            numberless_parts(seq![Written::Operator(operator)], written(*operand));
            written_without_numbers(*operand);
        },
        Tree::Binary(left, operator, right) => {
            numberless_parts(written(*left) + seq![Written::Operator(operator)], written(*right));
            numberless_parts(written(*left), seq![Written::Operator(operator)]);
            written_without_numbers(*left);
            written_without_numbers(*right);
        },
        Tree::Ternary(condition, if_true, if_false) => {
            let a = written(*condition) + seq![Written::Question];
            let b = a + written(*if_true);
            let c = b + seq![Written::Colon];
            numberless_parts(c, written(*if_false));
            numberless_parts(b, seq![Written::Colon]);
            numberless_parts(a, written(*if_true));
            numberless_parts(written(*condition), seq![Written::Question]);
            written_without_numbers(*condition);
            written_without_numbers(*if_true);
            written_without_numbers(*if_false);
        },
        Tree::Comma(first, second) => {
            numberless_parts(written(*first) + seq![Written::Comma], written(*second));
            numberless_parts(written(*first), seq![Written::Comma]);
            written_without_numbers(*first);
            written_without_numbers(*second);
        },
    }
}

/// From tokens among which no number stands the parser yields only trees
/// that hold no number literal.
pub proof fn numberless_tokens_give_numberless_trees(tokens: Seq<TokenView>, i: int)
    requires
        inside(tokens, i),
        numberless_tokens(tokens),
    ensures
        expression(tokens, i).result matches Ok(tree) ==> numberless(tree),
{
    expression_sound(tokens, i);
    expression_advances(tokens, i);
    if let Ok(tree) = expression(tokens, i).result {
        let writing = spelling(tokens, i, i + expression(tokens, i).used);
        assert forall|k: int| 0 <= k < writing.len() implies !(#[trigger] writing[k] matches Written::Value(
            Value::Number(_),
        )) by {
            assert(writing[k] == spelled(tokens[i + k]));
            assert(!(tokens[i + k].token is Number));
        }
        written_without_numbers(tree);
    }
}

} // verus!

//! Numbers are carried as IEEE-754 binary64 bit patterns.
//!
//! The library never computes with the patterns beyond ordering and negating
//! them: the four infix operations, reading a literal and writing a number
//! out are handed in by the caller as functions on patterns. Ordering,
//! equality and negation are decided here, on the sign and magnitude of the
//! pattern.
use vstd::prelude::*;

verus! {

/// The four arithmetic operators of the language.
#[derive(Clone, Copy, PartialEq, Eq, Structural, Debug)]
pub enum Arithmetic {
    Add,
    Subtract,
    Multiply,
    Divide,
}

/// What a caller-supplied arithmetic unit computes: a pattern for each
/// operator and pair of patterns.
pub type ArithmeticModel = spec_fn(Arithmetic, u64, u64) -> u64;

/// What a caller-supplied literal reader computes: a pattern for each text.
pub type ReadModel = spec_fn(Seq<char>) -> u64;

/// What a caller-supplied number writer computes: a text for each pattern.
pub type ShowModel = spec_fn(u64) -> Seq<char>;

/// `unit` returns nothing but what `model` gives.
pub open spec fn computes<F: Fn(Arithmetic, u64, u64) -> u64>(
    unit: &F,
    model: ArithmeticModel,
) -> bool {
    forall|op: Arithmetic, a: u64, b: u64, r: u64| #[trigger]
        call_ensures(*unit, (op, a, b), r) ==> r == model(op, a, b)
}

/// `reader` returns nothing but what `model` gives.
pub open spec fn reads<F: Fn(&str) -> u64>(reader: &F, model: ReadModel) -> bool {
    forall|text: &str, r: u64| #[trigger] call_ensures(*reader, (text,), r) ==> r == model(text@)
}

/// `writer` returns nothing but what `model` gives.
pub open spec fn shows<F: Fn(u64) -> String>(writer: &F, model: ShowModel) -> bool {
    forall|bits: u64, s: String| #[trigger] call_ensures(*writer, (bits,), s) ==> s@ == model(bits)
}

/// The pattern of positive infinity; every larger magnitude is not a number.
pub const INFINITY: u64 = 0x7ff0_0000_0000_0000;

/// The sign bit alone.
pub const SIGN: u64 = 0x8000_0000_0000_0000;

/// The pattern without its sign bit.
pub open spec fn magnitude(bits: u64) -> int {
    if bits >= SIGN {
        bits - SIGN
    } else {
        bits as int
    }
}

/// Exponent all ones and a fraction that is not zero.
pub open spec fn is_nan(bits: u64) -> bool {
    magnitude(bits) > INFINITY
}

/// An integer that orders the patterns that are numbers as IEEE-754 orders
/// their values; both zeros get 0.
pub open spec fn rank(bits: u64) -> int {
    if bits >= SIGN {
        -magnitude(bits)
    } else {
        magnitude(bits)
    }
}

/// The pattern of the negated value: the same magnitude under the other
/// sign. This holds of every pattern, zero, the infinities and what is not a
/// number included.
pub open spec fn negated(bits: u64) -> u64 {
    if bits >= SIGN {
        (bits - SIGN) as u64
    } else {
        (bits + SIGN) as u64
    }
}

/// IEEE-754 `<`: false if either side is not a number.
pub open spec fn less(a: u64, b: u64) -> bool {
    !is_nan(a) && !is_nan(b) && rank(a) < rank(b)
}

/// IEEE-754 `==`: false if either side is not a number, true of the two zeros.
pub open spec fn same(a: u64, b: u64) -> bool {
    !is_nan(a) && !is_nan(b) && rank(a) == rank(b)
}

fn exec_magnitude(bits: u64) -> (m: u64)
    ensures
        m == magnitude(bits),
{
    if bits >= SIGN {
        bits - SIGN
    } else {
        bits
    }
}

/// IEEE-754 negation: flips the sign and leaves the magnitude.
pub fn neg(bits: u64) -> (r: u64)
    ensures
        r == negated(bits),
{
    if bits >= SIGN {
        bits - SIGN
    } else {
        bits + SIGN
    }
}

/// Whether the pattern is not a number.
pub fn nan(bits: u64) -> (r: bool)
    ensures
        r == is_nan(bits),
{
    exec_magnitude(bits) > INFINITY
}

/// IEEE-754 `<` on two patterns.
pub fn lt(a: u64, b: u64) -> (r: bool)
    ensures
        r == less(a, b),
{
    if nan(a) || nan(b) {
        return false;
    }
    let ma = exec_magnitude(a);
    let mb = exec_magnitude(b);
    if a >= SIGN {
        if b >= SIGN {
            ma > mb
        } else {
            ma > 0 || mb > 0
        }
    } else {
        if b >= SIGN {
            false
        } else {
            ma < mb
        }
    }
}

/// IEEE-754 `==` on two patterns.
pub fn eq(a: u64, b: u64) -> (r: bool)
    ensures
        r == same(a, b),
{
    if nan(a) || nan(b) {
        return false;
    }
    let ma = exec_magnitude(a);
    let mb = exec_magnitude(b);
    if ma == 0 && mb == 0 {
        true
    } else {
        a == b
    }
}

/// IEEE-754 `<=` on two patterns.
pub fn le(a: u64, b: u64) -> (r: bool)
    ensures
        r == (less(a, b) || same(a, b)),
{
    lt(a, b) || eq(a, b)
}

/// IEEE-754 `>` on two patterns.
pub fn gt(a: u64, b: u64) -> (r: bool)
    ensures
        r == less(b, a),
{
    lt(b, a)
}

/// IEEE-754 `>=` on two patterns.
pub fn ge(a: u64, b: u64) -> (r: bool)
    ensures
        r == (less(b, a) || same(a, b)),
{
    lt(b, a) || eq(a, b)
}

/// Negation keeps the magnitude, turns the order round and undoes itself.
pub proof fn negation_laws(a: u64, b: u64)
    ensures
        magnitude(negated(a)) == magnitude(a),
        (negated(a) >= SIGN) != (a >= SIGN),
        negated(negated(a)) == a,
        is_nan(negated(a)) == is_nan(a),
        rank(negated(a)) == -rank(a),
        less(negated(a), negated(b)) == less(b, a),
        same(negated(a), negated(b)) == same(a, b),
{
}

/// Ordering is strict and equality is symmetric; a pattern that is not a
/// number is neither below, above nor equal to anything, itself included.
pub proof fn order_laws(a: u64, b: u64)
    ensures
        !(less(a, b) && less(b, a)),
        !(less(a, b) && same(a, b)),
        same(a, b) == same(b, a),
        is_nan(a) ==> !same(a, a) && !less(a, b) && !less(b, a),
        !is_nan(a) && !is_nan(b) ==> less(a, b) || less(b, a) || same(a, b),
{
}

} // verus!

use vstd::prelude::*;

use crate::binary::{binary_spec, fits, interval_result, max2, min2, BinaryError};
use crate::env::{chain_define, chain_lookup, lemma_chain_define, Frame};
use crate::lexer::Token;
use crate::value::Val;

verus! {

/// Subtracting a value from itself gives zero, for every comparable value
/// other than unknown: numbers, strings, booleans, intervals and none.
pub proof fn self_subtraction_is_zero(x: Val)
    requires
        x.comparable(),
        !(x is Unknown),
    ensures
        binary_spec(x, Token::Minus, x) == Ok::<Val, BinaryError>(Val::Number(0)),
{
}

/// Multiplying by the number zero on either side gives zero, whatever the
/// other operand is, unknown and intervals included.
pub proof fn zero_absorbs_products(y: Val)
    ensures
        binary_spec(Val::Number(0), Token::Star, y) == Ok::<Val, BinaryError>(Val::Number(0)),
        binary_spec(y, Token::Star, Val::Number(0)) == Ok::<Val, BinaryError>(Val::Number(0)),
{
}

/// Dividing a number by itself gives one unless the number is zero, where it
/// gives unknown; dividing an interval by itself gives one when the interval
/// lies strictly on one side of zero, and unknown when it touches or straddles zero.
pub proof fn self_division_rule(n: int, lo: int, hi: int)
    ensures
        n != 0 ==> binary_spec(Val::Number(n), Token::Slash, Val::Number(n))
            == Ok::<Val, BinaryError>(Val::Number(1)),
        binary_spec(Val::Number(0), Token::Slash, Val::Number(0))
            == Ok::<Val, BinaryError>(Val::Unknown),
        (lo > 0 || hi < 0) ==> binary_spec(Val::Interval(lo, hi), Token::Slash, Val::Interval(lo, hi))
            == Ok::<Val, BinaryError>(Val::Number(1)),
        !(lo > 0 || hi < 0) ==> binary_spec(Val::Interval(lo, hi), Token::Slash, Val::Interval(lo, hi))
            == Ok::<Val, BinaryError>(Val::Unknown),
{
}

/// Interval multiplication is commutative, and its result is the least and
/// greatest of the four corner products (an out-of-range error when either
/// does not fit the number type).
pub proof fn interval_product_commutes(a: int, b: int, c: int, d: int)
    ensures
        binary_spec(Val::Interval(a, b), Token::Star, Val::Interval(c, d))
            == binary_spec(Val::Interval(c, d), Token::Star, Val::Interval(a, b)),
        binary_spec(Val::Interval(a, b), Token::Star, Val::Interval(c, d)) == interval_result(
            min2(min2(min2(a * c, a * d), b * c), b * d),
            max2(max2(max2(a * c, a * d), b * c), b * d),
        ),
{
    assert(c * a == a * c && d * a == a * d && c * b == b * c && d * b == b * d) by (nonlinear_arith);
}

/// Interval addition sums the bounds pairwise.
pub proof fn interval_sum_is_boundwise(a: int, b: int, c: int, d: int)
    ensures
        binary_spec(Val::Interval(a, b), Token::Plus, Val::Interval(c, d)) == interval_result(a + c, b + d),
{
}

/// Interval addition is associative wherever the partial sums are in range.
pub proof fn interval_sum_associates(a: int, b: int, c: int, d: int, e: int, f: int)
    requires
        fits(a + c) && fits(b + d),
        fits(c + e) && fits(d + f),
    ensures
        binary_spec(Val::Interval(a + c, b + d), Token::Plus, Val::Interval(e, f))
            == binary_spec(Val::Interval(a, b), Token::Plus, Val::Interval(c + e, d + f)),
        binary_spec(Val::Interval(a, b), Token::Plus, Val::Interval(c, d))
            == Ok::<Val, BinaryError>(Val::Interval(a + c, b + d)),
        binary_spec(Val::Interval(c, d), Token::Plus, Val::Interval(e, f))
            == Ok::<Val, BinaryError>(Val::Interval(c + e, d + f)),
{
    assert(a + c + e == a + (c + e));
    assert(b + d + f == b + (d + f));
}

/// A binding made in a nested scope shadows the name there and leaves every
/// binding of the enclosing scopes as it was once the nested scope ends.
pub proof fn shadowing_is_local(outer: Seq<Frame>, k: Seq<char>, v: Val)
    ensures
        chain_define(seq![Seq::empty()] + outer, k, v).drop_first() == outer,
        chain_lookup(chain_define(seq![Seq::empty()] + outer, k, v), k) == Some(v),
{
    let inner = seq![Seq::<(Seq<char>, Val)>::empty()] + outer;
    assert(chain_define(inner, k, v).drop_first() =~= outer);
    lemma_chain_define(inner, k, v, k);
}

} // verus!

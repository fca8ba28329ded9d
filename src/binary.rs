use vstd::prelude::*;

use crate::lexer::Token;
use crate::text::push_str;
use crate::value::{SKBool, Val, Value};

verus! {

/// Why a binary operation failed.
#[derive(Debug, Clone, Copy, PartialEq, Eq, Structural)]
pub enum BinaryError {
    /// A number divided by the number zero.
    DivisionByZero,
    /// A division of whole numbers whose quotient is not whole.
    InexactDivision,
    /// A result outside the range of the number type.
    OutOfRange,
    /// No rule covers these operands and this operator.
    Unsupported,
}

pub open spec fn fits(n: int) -> bool {
    i64::MIN <= n <= i64::MAX
}

pub open spec fn number_result(n: int) -> Result<Val, BinaryError> {
    if fits(n) {
        Ok(Val::Number(n))
    } else {
        Err(BinaryError::OutOfRange)
    }
}

pub open spec fn interval_result(lo: int, hi: int) -> Result<Val, BinaryError> {
    if fits(lo) && fits(hi) {
        Ok(Val::Interval(lo, hi))
    } else {
        Err(BinaryError::OutOfRange)
    }
}

pub open spec fn min2(a: int, b: int) -> int {
    if a <= b { a } else { b }
}

pub open spec fn max2(a: int, b: int) -> int {
    if a >= b { a } else { b }
}

pub open spec fn abs(a: int) -> nat {
    if a < 0 { (-a) as nat } else { a as nat }
}

/// The quotient of two whole numbers, truncated toward zero.
pub open spec fn quotient(a: int, b: int) -> int {
    if (a < 0) == (b < 0) {
        (abs(a) / abs(b)) as int
    } else {
        -((abs(a) / abs(b)) as int)
    }
}

pub open spec fn truth(b: bool) -> Val {
    if b { Val::Bool(SKBool::True) } else { Val::Bool(SKBool::False) }
}

/// An interval scaled by a number, with its bounds kept in order.
pub open spec fn scaled(lo: int, hi: int, n: int) -> Result<Val, BinaryError> {
    interval_result(min2(lo * n, hi * n), max2(lo * n, hi * n))
}

/// The product of two intervals: the least and greatest corner products.
pub open spec fn interval_product(a: int, b: int, c: int, d: int) -> Result<Val, BinaryError> {
    interval_result(
        min2(min2(min2(a * c, a * d), b * c), b * d),
        max2(max2(max2(a * c, a * d), b * c), b * d),
    )
}

/// The type rules, applied once no identity or unknown rule has matched.
pub open spec fn combine_spec(l: Val, op: Token, r: Val) -> Result<Val, BinaryError> {
    match (l, r) {
        (Val::Number(a), Val::Number(b)) => match op {
            Token::Plus => number_result(a + b),
            Token::Minus => number_result(a - b),
            Token::Star => number_result(a * b),
            Token::Slash => if b == 0 {
                Err(BinaryError::DivisionByZero)
            } else if abs(a) % abs(b) != 0 {
                Err(BinaryError::InexactDivision)
            } else {
                number_result(quotient(a, b))
            },
            Token::Greater => Ok(truth(a > b)),
            Token::Less => Ok(truth(a < b)),
            Token::Equal => Ok(truth(a == b)),
            _ => Err(BinaryError::Unsupported),
        },
        (Val::Interval(lo, hi), Val::Number(n)) => match op {
            Token::Plus => interval_result(lo + n, hi + n),
            Token::Minus => interval_result(lo - n, hi - n),
            Token::Star => scaled(lo, hi, n),
            _ => Err(BinaryError::Unsupported),
        },
        (Val::Number(n), Val::Interval(lo, hi)) => match op {
            Token::Plus => interval_result(lo + n, hi + n),
            Token::Minus => interval_result(n - hi, n - lo),
            Token::Star => scaled(lo, hi, n),
            _ => Err(BinaryError::Unsupported),
        },
        (Val::Interval(a, b), Val::Interval(c, d)) => match op {
            Token::Plus => interval_result(a + c, b + d),
            Token::Minus => interval_result(a - d, b - c),
            Token::Star => interval_product(a, b, c, d),
            _ => Err(BinaryError::Unsupported),
        },
        (Val::Str(a), Val::Str(b)) => match op {
            Token::Plus => Ok(Val::Str(a + b)),
            _ => Err(BinaryError::Unsupported),
        },
        _ => Err(BinaryError::Unsupported),
    }
}

/// The result of `x / x` for a value `x` that equals itself.
pub open spec fn self_division(x: Val) -> Val {
    match x {
        Val::Number(n) => if n != 0 { Val::Number(1) } else { Val::Unknown },
        Val::Interval(lo, hi) => if lo > 0 || hi < 0 { Val::Number(1) } else { Val::Unknown },
        _ => Val::Unknown,
    }
}

/// The binary operator rules, tried in order; the first that matches decides.
pub open spec fn binary_spec(l: Val, op: Token, r: Val) -> Result<Val, BinaryError> {
    if op is Star && (l == Val::Number(0) || r == Val::Number(0)) {
        Ok(Val::Number(0))
    } else if op is Minus && l.same_as(r) && !(l is Unknown) {
        Ok(Val::Number(0))
    } else if op is Slash && l.same_as(r) {
        Ok(self_division(l))
    } else if l is Unknown || r is Unknown {
        Ok(Val::Unknown)
    } else {
        combine_spec(l, op, r)
    }
}

/// The model of a result that holds a value.
pub open spec fn result_view(r: Result<Value, BinaryError>) -> Result<Val, BinaryError> {
    match r {
        Ok(v) => Ok(v@),
        Err(e) => Err(e),
    }
}

fn number_of(n: i128) -> (r: Result<Value, BinaryError>)
    ensures
        result_view(r) == number_result(n as int),
{
    if n < i64::MIN as i128 || n > i64::MAX as i128 {
        Err(BinaryError::OutOfRange)
    } else {
        Ok(Value::Number(n as i64))
    }
}

fn interval_of(lo: i128, hi: i128) -> (r: Result<Value, BinaryError>)
    ensures
        result_view(r) == interval_result(lo as int, hi as int),
{
    if lo < i64::MIN as i128 || lo > i64::MAX as i128 || hi < i64::MIN as i128 || hi > i64::MAX as i128 {
        Err(BinaryError::OutOfRange)
    } else {
        Ok(Value::Interval(lo as i64, hi as i64))
    }
}

fn wide_mul(a: i64, b: i64) -> (r: i128)
    ensures
        r == a as int * b as int,
{
    proof {
        let x = a as int;
        let y = b as int;
        assert(-0x8000_0000_0000_0000 <= x <= 0x7fff_ffff_ffff_ffff);
        assert(-0x8000_0000_0000_0000 <= y <= 0x7fff_ffff_ffff_ffff);
        assert(-0x4000_0000_0000_0000_0000_0000_0000_0000 <= x * y <= 0x4000_0000_0000_0000_0000_0000_0000_0000)
            by (nonlinear_arith)
            requires
                -0x8000_0000_0000_0000 <= x <= 0x7fff_ffff_ffff_ffff,
                -0x8000_0000_0000_0000 <= y <= 0x7fff_ffff_ffff_ffff,
        ;
    }
    (a as i128) * (b as i128)
}

fn min_of(a: i128, b: i128) -> (r: i128)
    ensures
        r == min2(a as int, b as int),
{
    if a <= b { a } else { b }
}

fn max_of(a: i128, b: i128) -> (r: i128)
    ensures
        r == max2(a as int, b as int),
{
    if a >= b { a } else { b }
}

fn magnitude(a: i64) -> (r: u128)
    ensures
        r == abs(a as int),
{
    if a < 0 { (-(a as i128)) as u128 } else { a as u128 }
}

fn truth_of(b: bool) -> (r: Value)
    ensures
        r@ == truth(b),
{
    if b { Value::Bool(SKBool::True) } else { Value::Bool(SKBool::False) }
}

fn divide(a: i64, b: i64) -> (r: Result<Value, BinaryError>)
    ensures
        result_view(r) == combine_spec(Val::Number(a as int), Token::Slash, Val::Number(b as int)),
{
    if b == 0 {
        return Err(BinaryError::DivisionByZero);
    }
    let ua = magnitude(a);
    let ub = magnitude(b);
    if ua % ub != 0 {
        return Err(BinaryError::InexactDivision);
    }
    let q = ua / ub;
    proof {
        assert(q <= ua) by (nonlinear_arith)
            requires
                q == ua / ub,
                ub >= 1,
        ;
    }
    let signed: i128 = if (a < 0) == (b < 0) { q as i128 } else { -(q as i128) };
    number_of(signed)
}

fn scale(lo: i64, hi: i64, n: i64) -> (r: Result<Value, BinaryError>)
    ensures
        result_view(r) == scaled(lo as int, hi as int, n as int),
{
    let a = wide_mul(lo, n);
    let b = wide_mul(hi, n);
    interval_of(min_of(a, b), max_of(a, b))
}

fn product(a: i64, b: i64, c: i64, d: i64) -> (r: Result<Value, BinaryError>)
    ensures
        result_view(r) == interval_product(a as int, b as int, c as int, d as int),
{
    let ac = wide_mul(a, c);
    let ad = wide_mul(a, d);
    let bc = wide_mul(b, c);
    let bd = wide_mul(b, d);
    interval_of(
        min_of(min_of(min_of(ac, ad), bc), bd),
        max_of(max_of(max_of(ac, ad), bc), bd),
    )
}

/// The type rules on two values, neither of them unknown.
pub fn combine(left: Value, op: &Token, right: Value) -> (r: Result<Value, BinaryError>)
    ensures
        result_view(r) == combine_spec(left@, *op, right@),
{
    match (left, right) {
        (Value::Number(a), Value::Number(b)) => match op {
            Token::Plus => number_of(a as i128 + b as i128),
            Token::Minus => number_of(a as i128 - b as i128),
            Token::Star => number_of(wide_mul(a, b)),
            Token::Slash => divide(a, b),
            Token::Greater => Ok(truth_of(a > b)),
            Token::Less => Ok(truth_of(a < b)),
            Token::Equal => Ok(truth_of(a == b)),
            _ => Err(BinaryError::Unsupported),
        },
        (Value::Interval(lo, hi), Value::Number(n)) => match op {
            Token::Plus => interval_of(lo as i128 + n as i128, hi as i128 + n as i128),
            Token::Minus => interval_of(lo as i128 - n as i128, hi as i128 - n as i128),
            Token::Star => scale(lo, hi, n),
            _ => Err(BinaryError::Unsupported),
        },
        (Value::Number(n), Value::Interval(lo, hi)) => match op {
            Token::Plus => interval_of(lo as i128 + n as i128, hi as i128 + n as i128),
            Token::Minus => interval_of(n as i128 - hi as i128, n as i128 - lo as i128),
            Token::Star => scale(lo, hi, n),
            _ => Err(BinaryError::Unsupported),
        },
        (Value::Interval(a, b), Value::Interval(c, d)) => match op {
            Token::Plus => interval_of(a as i128 + c as i128, b as i128 + d as i128),
            Token::Minus => interval_of(a as i128 - d as i128, b as i128 - c as i128),
            Token::Star => product(a, b, c, d),
            _ => Err(BinaryError::Unsupported),
        },
        (Value::String(a), Value::String(b)) => match op {
            Token::Plus => {
                let mut s = a;
                push_str(&mut s, b.as_str());
                Ok(Value::String(s))
            },
            _ => Err(BinaryError::Unsupported),
        },
        _ => Err(BinaryError::Unsupported),
    }
}

fn is_zero(v: &Value) -> (r: bool)
    ensures
        r == (v@ == Val::Number(0)),
{
    match v {
        Value::Number(n) => *n == 0,
        _ => false,
    }
}

/// Applies a binary operator under the ordered rule table: zero absorption,
/// self-subtraction, self-division, unknown propagation, then the type rules.
pub fn apply_binary(left: Value, op: &Token, right: Value) -> (r: Result<Value, BinaryError>)
    ensures
        result_view(r) == binary_spec(left@, *op, right@),
{
    if matches!(op, Token::Star) && (is_zero(&left) || is_zero(&right)) {
        return Ok(Value::Number(0));
    }
    let same = left.same(&right);
    if matches!(op, Token::Minus) && same && !left.is_unknown() {
        return Ok(Value::Number(0));
    }
    if matches!(op, Token::Slash) && same {
        let r = match left {
            Value::Number(n) => if n != 0 { Value::Number(1) } else { Value::Unknown },
            Value::Interval(lo, hi) => if lo > 0 || hi < 0 { Value::Number(1) } else { Value::Unknown },
            _ => Value::Unknown,
        };
        return Ok(r);
    }
    if left.is_unknown() || right.is_unknown() {
        return Ok(Value::Unknown);
    }
    combine(left, op, right)
}

} // verus!

use vstd::prelude::*;

use crate::env::{chain_define, Environment};
use crate::error::{err, Error};
use crate::lexer::TokenSpan;
use crate::text::text_of;
use crate::value::{Native, Val, Value};

verus! {

pub open spec fn is_floor_sqrt(r: int, n: int) -> bool {
    0 <= r && r * r <= n && n < (r + 1) * (r + 1)
}

/// The greatest whole number whose square is at most `n`.
pub open spec fn floor_sqrt(n: int) -> int {
    choose|r: int| is_floor_sqrt(r, n)
}

/// The least whole number whose square is at least `n`.
pub open spec fn ceil_sqrt(n: int) -> int {
    if floor_sqrt(n) * floor_sqrt(n) == n { floor_sqrt(n) } else { floor_sqrt(n) + 1 }
}

pub proof fn lemma_floor_sqrt_unique(r: int, n: int)
    requires
        is_floor_sqrt(r, n),
    ensures
        floor_sqrt(n) == r,
{
    let s = floor_sqrt(n);
    assert(is_floor_sqrt(s, n));
    if s < r {
        assert((s + 1) * (s + 1) <= r * r) by (nonlinear_arith)
            requires
                0 <= s,
                s + 1 <= r,
        ;
    } else if r < s {
        assert((r + 1) * (r + 1) <= s * s) by (nonlinear_arith)
            requires
                0 <= r,
                r + 1 <= s,
        ;
    }
}

/// The whole square root of `n`, rounded down.
pub fn isqrt(n: i64) -> (r: i64)
    requires
        n >= 0,
    ensures
        is_floor_sqrt(r as int, n as int),
        r == floor_sqrt(n as int),
        r < 3037000500,
{
    let mut lo: i64 = 0;
    let mut hi: i64 = 3037000500;
    assert(3037000500 * 3037000500 > i64::MAX) by (nonlinear_arith);
    while hi - lo > 1
        invariant
            0 <= lo < hi <= 3037000500,
            lo * lo <= n,
            n < hi * hi,
        decreases hi - lo,
    {
        let mid = lo + (hi - lo) / 2;
        assert(0 <= mid * mid <= 3037000500 * 3037000500) by (nonlinear_arith)
            requires
                0 <= mid <= 3037000500,
        ;
        if (mid as i128) * (mid as i128) <= n as i128 {
            lo = mid;
        } else {
            hi = mid;
        }
    }
    proof {
        lemma_floor_sqrt_unique(lo as int, n as int);
    }
    lo
}

/// What `sqrt` returns for its arguments, or the message it fails with.
pub open spec fn sqrt_spec(args: Seq<Val>) -> Result<Val, Seq<char>> {
    if args.len() == 0 {
        Err("sqrt() expects 1 number or interval"@)
    } else {
        match args[0] {
            Val::Number(n) => if n < 0 {
                Err("Cannot take sqrt of a negative number"@)
            } else if floor_sqrt(n) * floor_sqrt(n) != n {
                Err("sqrt() has no whole result for this number"@)
            } else {
                Ok(Val::Number(floor_sqrt(n)))
            },
            Val::Interval(lo, hi) => if lo < 0 || hi < 0 {
                Err("Cannot take sqrt of negative interval"@)
            } else {
                Ok(Val::Interval(floor_sqrt(lo), ceil_sqrt(hi)))
            },
            _ => Err("sqrt() expects 1 number or interval"@),
        }
    }
}

/// The square root of a perfect square, or the smallest interval of whole
/// numbers that holds the square roots of an interval.
/// A failure carries the call site `span`.
pub fn sqrt(args: &Vec<Value>, span: TokenSpan) -> (r: Result<Value, Error>)
    ensures
        match r {
            Ok(v) => sqrt_spec(args@.map_values(|a: Value| a@)) == Ok::<Val, Seq<char>>(v@),
            Err(e) => sqrt_spec(args@.map_values(|a: Value| a@)) == Err::<Val, Seq<char>>(e.message@)
                && e.token == span,
        },
{
    let ghost vals = args@.map_values(|a: Value| a@);
    if args.len() == 0 {
        return Err(err(span, text_of("sqrt() expects 1 number or interval")));
    }
    assert(vals[0] == args@[0]@);
    match &args[0] {
        Value::Number(n) => {
            if *n < 0 {
                return Err(err(span, text_of("Cannot take sqrt of a negative number")));
            }
            let root = isqrt(*n);
            if root * root != *n {
                Err(err(span, text_of("sqrt() has no whole result for this number")))
            } else {
                Ok(Value::Number(root))
            }
        },
        Value::Interval(lo, hi) => {
            if *lo < 0 || *hi < 0 {
                return Err(err(span, text_of("Cannot take sqrt of negative interval")));
            }
            let a = isqrt(*lo);
            let b = isqrt(*hi);
            let c = if b * b == *hi { b } else { b + 1 };
            Ok(Value::Interval(a, c))
        },
        _ => Err(err(span, text_of("sqrt() expects 1 number or interval"))),
    }
}

/// Binds the math library's names: `sqrt`.
pub fn register(env: &mut Environment)
    requires
        old(env).wf(),
    ensures
        final(env).wf(),
        final(env).outer() == old(env).outer(),
        final(env).frames() == chain_define(old(env).frames(), "sqrt"@, Val::NativeFn(Native::Sqrt)),
{
    env.define(text_of("sqrt"), Value::NativeFn(Native::Sqrt));
}

} // verus!

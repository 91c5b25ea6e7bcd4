//! Fixed-point arithmetic shared by the physics.

use vstd::arithmetic::div_mod::{lemma_div_is_ordered, lemma_div_multiples_vanish, lemma_div_pos_is_pos};
use vstd::prelude::*;

verus! {

/// Number of fixed-point steps in one unit (one pixel, one second, ...).
pub const UNIT: i64 = 1_000_000;

/// Integer quotient of `n` by a positive `d`, rounded toward zero.
pub open spec fn quot(n: int, d: int) -> int {
    if n >= 0 {
        n / d
    } else {
        -((-n) / d)
    }
}

/// Fixed-point product of `a` and `b`, rounded toward zero.
pub open spec fn scaled(a: int, b: int) -> int {
    quot(a * b, UNIT as int)
}

/// Absolute value.
pub open spec fn abs(v: int) -> int {
    if v < 0 {
        -v
    } else {
        v
    }
}

/// Dividing a value of magnitude at most `m * d` by `d` gives magnitude at most `m`.
pub proof fn lemma_quot_bounded(n: int, d: int, m: int)
    requires
        d > 0,
        m >= 0,
        -(m * d) <= n <= m * d,
    ensures
        -m <= quot(n, d) <= m,
{
    lemma_div_multiples_vanish(m, d);
    assert(m * d == d * m) by (nonlinear_arith);
    if n >= 0 {
        lemma_div_is_ordered(n, m * d, d);
        lemma_div_pos_is_pos(n, d);
    } else {
        lemma_div_is_ordered(-n, m * d, d);
        lemma_div_pos_is_pos(-n, d);
    }
}

/// Rounds toward zero the quotient of `n` by a positive `d`.
pub fn div_toward_zero(n: i128, d: i128) -> (r: i128)
    requires
        d > 0,
        n > i128::MIN,
    ensures
        r == quot(n as int, d as int),
{
    if n >= 0 {
        n / d
    } else {
        -((-n) / d)
    }
}

/// Absolute value of a value that is not `i64::MIN`.
pub fn abs_i64(v: i64) -> (r: i64)
    requires
        v > i64::MIN,
    ensures
        r == abs(v as int),
{
    if v < 0 {
        -v
    } else {
        v
    }
}

} // verus!

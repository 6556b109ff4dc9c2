//! Fixed-point arithmetic: lengths are counted in thousandths of a grid unit.
use vstd::prelude::*;

verus! {

/// Fixed-point units in one grid unit.
pub const SCALE: i64 = 1000;

/// Fixed-point units in the square of one grid unit (a product of two lengths).
pub const SCALE_SQ: i64 = 1_000_000;

/// Distance advanced by one step of ray marching: a tenth of a grid unit.
pub const STEP: i64 = 100;

/// Integer division rounding toward negative infinity.
pub fn floor_div(a: i128, b: i128) -> (q: i128)
    requires
        b > 0,
    ensures
        q == a / b,
{
    proof {
        lemma_div_in_range(a as int, b as int);
    }
    match a.checked_div_euclid(b) {
        Some(q) => q,
        None => 0,
    }
}

/// Remainder of `floor_div`, always in `[0, b)`.
pub fn floor_mod(a: i128, b: i128) -> (r: i128)
    requires
        b > 0,
    ensures
        r == a % b,
        0 <= r < b,
{
    match a.checked_rem_euclid(b) {
        Some(r) => r,
        None => 0,
    }
}

proof fn lemma_div_in_range(a: int, b: int)
    requires
        b > 0,
        i128::MIN <= a <= i128::MAX,
    ensures
        i128::MIN <= a / b <= i128::MAX,
{
    let q = a / b;
    let r = a % b;
    vstd::arithmetic::div_mod::lemma_fundamental_div_mod(a, b);
    assert(0 <= r < b);
    assert(a == b * q + r);
    if q < 0 {
        assert(b * q + b <= q + 1) by (nonlinear_arith)
            requires
                b >= 1,
                q < 0,
        ;
    } else {
        assert(b * q >= q) by (nonlinear_arith)
            requires
                b >= 1,
                q >= 0,
        ;
    }
}

} // verus!

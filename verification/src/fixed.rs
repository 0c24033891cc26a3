//! Fixed-point arithmetic for the simulation.
//!
//! Every physical quantity is an `i64` counting millionths: the value `1.0`
//! is [`UNIT`]. Products of two fixed-point numbers are scaled back down by
//! [`UNIT`] with truncation toward zero, mirroring how hardware rounds
//! toward zero on signed division.

use vstd::prelude::*;

verus! {

/// The fixed-point representation of 1.0: all quantities count millionths.
pub const UNIT: i64 = 1_000_000;

/// Truncating division of `a` by a positive divisor `d`: rounds toward zero,
/// as Rust's `/` does on signed integers.
pub open spec fn tdiv(a: int, d: int) -> int {
    if a >= 0 {
        a / d
    } else {
        -((-a) / d)
    }
}

/// The product of two fixed-point numbers, scaled back to fixed point.
pub open spec fn fp_mul_spec(a: int, b: int) -> int {
    tdiv(a * b, UNIT as int)
}

/// `x` clamped into the closed interval `[lo, hi]`.
pub open spec fn clamp_spec(x: int, lo: int, hi: int) -> int {
    if x < lo {
        lo
    } else if x > hi {
        hi
    } else {
        x
    }
}

/// Fixed-point multiplication: `(a * b) / UNIT`, truncated toward zero.
pub fn fp_mul(a: i64, b: i64) -> (r: i64)
    requires
        i64::MIN <= a * b <= i64::MAX,
    ensures
        r == fp_mul_spec(a as int, b as int),
{
    (a * b) / UNIT
}

/// The integer square root: the greatest `r` with `r * r <= n`.
pub open spec fn sqrt_floor(n: nat) -> nat
    decreases n,
{
    if n == 0 {
        0
    } else {
        let r = sqrt_floor((n - 1) as nat);
        if (r + 1) * (r + 1) <= n {
            r + 1
        } else {
            r
        }
    }
}

/// `sqrt_floor(n)` squared is at most `n`, and the next square is above `n`.
pub proof fn lemma_sqrt_floor_bounds(n: nat)
    ensures
        sqrt_floor(n) * sqrt_floor(n) <= n,
        n < (sqrt_floor(n) + 1) * (sqrt_floor(n) + 1),
    decreases n,
{
    let s = sqrt_floor(n);
    if n > 0 {
        lemma_sqrt_floor_bounds((n - 1) as nat);
        let r = sqrt_floor((n - 1) as nat);
        assert(s * s <= n && n < (s + 1) * (s + 1)) by (nonlinear_arith)
            requires
                r >= 0,
                n >= 1,
                r * r <= n - 1,
                n - 1 < (r + 1) * (r + 1),
                ((r + 1) * (r + 1) <= n) ==> s == r + 1,
                !((r + 1) * (r + 1) <= n) ==> s == r,
        ;
    } else {
        assert(s * s <= n && n < (s + 1) * (s + 1)) by (nonlinear_arith)
            requires
                n == 0,
                s == 0,
        ;
    }
}

/// Two integer square roots of the same number are equal.
pub proof fn lemma_isqrt_unique(n: int, r: int, s: int)
    requires
        0 <= r,
        0 <= s,
        r * r <= n < (r + 1) * (r + 1),
        s * s <= n < (s + 1) * (s + 1),
    ensures
        r == s,
{
    assert(r == s) by (nonlinear_arith)
        requires
            0 <= r,
            0 <= s,
            r * r <= n < (r + 1) * (r + 1),
            s * s <= n < (s + 1) * (s + 1),
    ;
}

/// Computes the integer square root by bisection.
pub fn isqrt(n: u64) -> (r: u64)
    ensures
        r == sqrt_floor(n as nat),
        r * r <= n,
{
    let mut lo: u64 = 0;
    let mut hi: u64 = 4_294_967_296;
    proof {
        assert((4_294_967_296 as int) * (4_294_967_296 as int) > u64::MAX as int)
            by (nonlinear_arith);
    }
    while lo + 1 < hi
        invariant
            lo < hi <= 4_294_967_296,
            lo * lo <= n,
            (n as int) < (hi as int) * (hi as int),
        decreases hi - lo,
    {
        let mid = lo + (hi - lo) / 2;
        proof {
            assert(mid * mid <= 4_294_967_295u64 * 4_294_967_295u64) by (nonlinear_arith)
                requires
                    0 <= mid < 4_294_967_296,
            ;
            assert(4_294_967_295int * 4_294_967_295int <= u64::MAX) by (nonlinear_arith);
        }
        if mid * mid <= n {
            lo = mid;
        } else {
            hi = mid;
        }
    }
    proof {
        lemma_sqrt_floor_bounds(n as nat);
        lemma_isqrt_unique(n as int, lo as int, sqrt_floor(n as nat) as int);
    }
    lo
}

/// Scaling `a` by `s` and dividing by a bound `d` of `a` stays within `[-s, s]`.
pub proof fn lemma_tdiv_scaled_bound(a: int, d: int, s: int)
    requires
        d >= 1,
        s >= 0,
        -d <= a <= d,
    ensures
        -s <= tdiv(a * s, d) <= s,
        a >= 0 ==> tdiv(a * s, d) >= 0,
        a <= 0 ==> tdiv(a * s, d) <= 0,
{
    if a >= 0 {
        assert(a * s >= 0) by (nonlinear_arith)
            requires
                a >= 0,
                s >= 0,
        ;
        assert(0 <= (a * s) / d <= s) by (nonlinear_arith)
            requires
                0 <= a <= d,
                d >= 1,
                s >= 0,
        ;
    } else {
        let p = -a;
        assert(a * s <= 0 && -(a * s) == p * s) by (nonlinear_arith)
            requires
                a < 0,
                s >= 0,
                p == -a,
        ;
        assert(0 <= (p * s) / d <= s) by (nonlinear_arith)
            requires
                0 <= p <= d,
                d >= 1,
                s >= 0,
        ;
        if a * s == 0 {
            assert(tdiv(a * s, d) == 0int / d);
            assert(0int / d == 0) by (nonlinear_arith)
                requires
                    d >= 1,
            ;
        }
    }
}

/// A magnitude bound on the dividend carries over to the truncated quotient.
pub proof fn lemma_tdiv_mag(a: int, b: int, d: int)
    requires
        d >= 1,
        b >= 0,
        -b <= a <= b,
    ensures
        -(b / d) <= tdiv(a, d) <= b / d,
        a >= 0 ==> tdiv(a, d) >= 0,
        a <= 0 ==> tdiv(a, d) <= 0,
{
    if a >= 0 {
        assert(0 <= a / d <= b / d) by (nonlinear_arith)
            requires
                0 <= a <= b,
                d >= 1,
        ;
    } else {
        assert(0 <= (-a) / d <= b / d) by (nonlinear_arith)
            requires
                0 <= -a <= b,
                d >= 1,
        ;
    }
}

/// Magnitude bounds on both factors carry over to a fixed-point product.
pub proof fn lemma_fp_mul_mag(x: int, y: int, bx: int, by: int)
    requires
        -bx <= x <= bx,
        -by <= y <= by,
        bx >= 0,
        by >= 0,
    ensures
        -((bx * by) / (UNIT as int)) <= fp_mul_spec(x, y) <= (bx * by) / (UNIT as int),
        x >= 0 && y >= 0 ==> fp_mul_spec(x, y) >= 0,
        x * y <= 0 ==> fp_mul_spec(x, y) <= 0,
        x * y >= 0 ==> fp_mul_spec(x, y) >= 0,
{
    assert(-(bx * by) <= x * y <= bx * by) by (nonlinear_arith)
        requires
            -bx <= x <= bx,
            -by <= y <= by,
            bx >= 0,
            by >= 0,
    ;
    assert(bx * by >= 0) by (nonlinear_arith)
        requires
            bx >= 0,
            by >= 0,
    ;
    assert(x >= 0 && y >= 0 ==> x * y >= 0) by (nonlinear_arith);
    lemma_tdiv_mag(x * y, bx * by, UNIT as int);
}

/// Truncating division loses less than one divisor: scaling the quotient
/// back up lands within `d - 1` of the dividend, on the dividend's side
/// of zero.
pub proof fn lemma_tdiv_err(a: int, d: int)
    requires
        d >= 1,
    ensures
        -(d - 1) <= a - d * tdiv(a, d) <= d - 1,
        a >= 0 ==> a - d * tdiv(a, d) >= 0,
        a <= 0 ==> a - d * tdiv(a, d) <= 0,
{
    if a >= 0 {
        let q = a / d;
        assert(tdiv(a, d) == q);
        assert(0 <= a - d * q <= d - 1) by (nonlinear_arith)
            requires
                d >= 1,
                a >= 0,
                q == a / d,
        ;
    } else {
        let q = (-a) / d;
        assert(tdiv(a, d) == -q);
        assert(0 <= (-a) - d * q <= d - 1) by (nonlinear_arith)
            requires
                d >= 1,
                -a >= 0,
                q == (-a) / d,
        ;
        assert(d * (-q) == -(d * q)) by (nonlinear_arith);
    }
}

/// Fixed-point multiplication by one whole unit is exact, and by zero is
/// zero.
pub proof fn lemma_fp_mul_unit(a: int)
    ensures
        fp_mul_spec(UNIT as int, a) == a,
        fp_mul_spec(0, a) == 0,
{
    assert(0 * a == 0) by (nonlinear_arith);
    assert(0int / (UNIT as int) == 0) by (nonlinear_arith);
    if a >= 0 {
        assert((UNIT as int) * a >= 0 && ((UNIT as int) * a) / (UNIT as int) == a)
            by (nonlinear_arith)
            requires
                a >= 0,
        ;
    } else {
        assert((UNIT as int) * a < 0 && -((UNIT as int) * a) == (UNIT as int) * (-a))
            by (nonlinear_arith)
            requires
                a < 0,
        ;
        assert(((UNIT as int) * (-a)) / (UNIT as int) == -a) by (nonlinear_arith)
            requires
                -a >= 0,
        ;
    }
}

/// Truncating division is odd: negating the dividend negates the quotient.
pub proof fn lemma_tdiv_odd(a: int, d: int)
    requires
        d >= 1,
    ensures
        tdiv(-a, d) == -tdiv(a, d),
{
    if a == 0 {
        assert(0int / d == 0) by (nonlinear_arith)
            requires
                d >= 1,
        ;
    }
}

/// Negating one factor negates a fixed-point product.
pub proof fn lemma_fp_mul_odd(a: int, b: int)
    ensures
        fp_mul_spec(a, -b) == -fp_mul_spec(a, b),
{
    assert(a * (-b) == -(a * b)) by (nonlinear_arith);
    lemma_tdiv_odd(a * b, UNIT as int);
}

/// Truncating division by a positive divisor is monotone.
pub proof fn lemma_tdiv_mono(a: int, b: int, d: int)
    requires
        d >= 1,
        a <= b,
    ensures
        tdiv(a, d) <= tdiv(b, d),
{
    if a >= 0 {
        vstd::arithmetic::div_mod::lemma_div_is_ordered(a, b, d);
    } else if b <= 0 {
        vstd::arithmetic::div_mod::lemma_div_is_ordered(-b, -a, d);
    } else {
        assert(a < 0 && b > 0);
        assert((-a) / d >= 0 && b / d >= 0) by (nonlinear_arith)
            requires
                d >= 1,
                -a >= 0,
                b >= 0,
        ;
    }
}

/// Clamps `x` into `[lo, hi]`.
pub fn clamp(x: i64, lo: i64, hi: i64) -> (r: i64)
    requires
        lo <= hi,
    ensures
        r == clamp_spec(x as int, lo as int, hi as int),
{
    if x < lo {
        lo
    } else if x > hi {
        hi
    } else {
        x
    }
}

} // verus!

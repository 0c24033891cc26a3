//! Interpolation helpers shared by the noise generator and the display code.

use vstd::prelude::*;
use crate::fixed::{fp_mul, fp_mul_spec, lemma_fp_mul_mag, lemma_tdiv_err, lemma_tdiv_mag,
    lemma_tdiv_odd, tdiv, UNIT};

verus! {

/// Smooth interpolation between `a` and `b`: the blend weight is the
/// smoothstep curve `t * t * (3 - 2 * t)` of the fraction `t`.
pub open spec fn interpolate_spec(a: int, b: int, t: int) -> int {
    let u = fp_mul_spec(fp_mul_spec(t, t), 3 * UNIT - 2 * t);
    fp_mul_spec(UNIT - u, a) + fp_mul_spec(u, b)
}

/// The blend weight of [`interpolate_spec`] never leaves `[0, UNIT]`:
/// the smoothstep curve stays within the unit interval.
pub proof fn lemma_blend_weight_unit(t: int)
    requires
        0 <= t <= UNIT,
    ensures
        0 <= fp_mul_spec(fp_mul_spec(t, t), 3 * UNIT - 2 * t) <= UNIT,
{
    let ui = UNIT as int;
    let q = fp_mul_spec(t, t);
    let w3 = 3 * ui - 2 * t;
    let u = fp_mul_spec(q, w3);
    assert(t * t >= 0) by (nonlinear_arith);
    lemma_fp_mul_mag(t, t, ui, ui);
    assert(ui * ui / ui == ui) by (nonlinear_arith)
        requires
            ui == 1_000_000,
    ;
    lemma_tdiv_err(t * t, ui);
    assert(ui * q <= t * t);
    assert(q * w3 >= 0) by (nonlinear_arith)
        requires
            q >= 0,
            w3 >= 0,
    ;
    lemma_fp_mul_mag(q, w3, ui, 3 * ui);
    lemma_tdiv_err(q * w3, ui);
    assert(ui * u <= q * w3);
    // the cubic `t * t * (3 * UNIT - 2 * t)` peaks at `UNIT` cubed, by
    // the factorization of the difference
    assert((ui - t) * (ui - t) * (ui + 2 * t) >= 0) by (nonlinear_arith)
        requires
            0 <= t <= ui,
    ;
    assert(ui * ui * ui - (t * t) * w3 == (ui - t) * (ui - t) * (ui + 2 * t))
        by (nonlinear_arith)
        requires
            w3 == 3 * ui - 2 * t,
    ;
    assert((q * w3) * ui == (ui * q) * w3) by (nonlinear_arith);
    assert((ui * q) * w3 <= (t * t) * w3) by (nonlinear_arith)
        requires
            ui * q <= t * t,
            w3 >= 0,
    ;
    assert((q * w3) * ui <= ui * ui * ui);
    assert(ui * ui * ui == (ui * ui) * ui) by (nonlinear_arith);
    assert(q * w3 <= ui * ui) by (nonlinear_arith)
        requires
            (q * w3) * ui <= (ui * ui) * ui,
            ui >= 1,
    ;
    assert(u <= ui) by (nonlinear_arith)
        requires
            ui * u <= q * w3,
            q * w3 <= ui * ui,
            ui == 1_000_000,
    ;
}

/// At the endpoints of the unit interval the blend is exact: a zero
/// fraction returns the first value, a whole-unit fraction the second.
pub proof fn lemma_interpolate_endpoints(a: int, b: int)
    ensures
        interpolate_spec(a, b, 0) == a,
        interpolate_spec(a, b, UNIT as int) == b,
{
    let ui = UNIT as int;
    crate::fixed::lemma_fp_mul_unit(0);
    crate::fixed::lemma_fp_mul_unit(ui);
    crate::fixed::lemma_fp_mul_unit(a);
    crate::fixed::lemma_fp_mul_unit(b);
    crate::fixed::lemma_fp_mul_unit(3 * ui);
}

/// With the blend weight inside the unit interval, an interpolation of
/// two values of magnitude at most `m` stays within `m` plus two units of
/// truncation.
pub proof fn lemma_interpolate_convex(a: int, b: int, t: int, m: int)
    requires
        0 <= t <= UNIT,
        m >= 0,
        -m <= a <= m,
        -m <= b <= m,
    ensures
        -(m + 2) <= interpolate_spec(a, b, t) <= m + 2,
{
    let ui = UNIT as int;
    lemma_blend_weight_unit(t);
    let u = fp_mul_spec(fp_mul_spec(t, t), 3 * UNIT - 2 * t);
    let p1 = (ui - u) * a;
    let p2 = u * b;
    lemma_tdiv_err(p1, ui);
    lemma_tdiv_err(p2, ui);
    assert(-(ui * m) <= p1 + p2 <= ui * m) by (nonlinear_arith)
        requires
            0 <= u <= ui,
            -m <= a <= m,
            -m <= b <= m,
            p1 == (ui - u) * a,
            p2 == u * b,
    ;
    let r = tdiv(p1, ui) + tdiv(p2, ui);
    assert(-(ui * (m + 2)) <= ui * r <= ui * (m + 2)) by (nonlinear_arith)
        requires
            ui == 1_000_000,
            -(ui - 1) <= p1 - ui * tdiv(p1, ui) <= ui - 1,
            -(ui - 1) <= p2 - ui * tdiv(p2, ui) <= ui - 1,
            -(ui * m) <= p1 + p2 <= ui * m,
            r == tdiv(p1, ui) + tdiv(p2, ui),
    ;
    assert(-(m + 2) <= r <= m + 2) by (nonlinear_arith)
        requires
            -(ui * (m + 2)) <= ui * r <= ui * (m + 2),
            ui >= 1,
    ;
}

/// Blends `a` toward `b` by the smoothstep of the fraction `t`.
pub fn interpolate(a: i64, b: i64, t: i64) -> (r: i64)
    requires
        0 <= t <= UNIT,
        -1_000_000_000_000 <= a <= 1_000_000_000_000,
        -1_000_000_000_000 <= b <= 1_000_000_000_000,
    ensures
        r == interpolate_spec(a as int, b as int, t as int),
{
    proof {
        lemma_fp_mul_mag(t as int, t as int, UNIT as int, UNIT as int);
        assert((UNIT as int) * (UNIT as int) / (UNIT as int) == UNIT as int) by (nonlinear_arith);
        lemma_blend_weight_unit(t as int);
        let u = fp_mul_spec(fp_mul_spec(t as int, t as int), 3 * UNIT - 2 * t);
        lemma_fp_mul_mag(UNIT - u, a as int, 2 * UNIT as int, 1_000_000_000_000);
        lemma_fp_mul_mag(u, b as int, 3 * UNIT as int, 1_000_000_000_000);
    }
    let q = fp_mul(t, t);
    let u = fp_mul(q, 3 * UNIT - 2 * t);
    fp_mul(UNIT - u, a) + fp_mul(u, b)
}

/// Maps `value` linearly from the interval `[from_start, from_end]` to the
/// interval `[to_start, to_end]`, truncating toward `to_start`.
pub open spec fn map_range_spec(
    from_start: int,
    from_end: int,
    to_start: int,
    to_end: int,
    value: int,
) -> int {
    to_start + tdiv((to_end - to_start) * (value - from_start), from_end - from_start)
}

/// Maps `value` linearly from one interval onto another. The target
/// interval may run in either direction and `value` may lie outside the
/// source interval; a reversed source interval maps identically after
/// swapping both pairs of endpoints, so only the forward form is taken.
pub fn map_range(from_start: i64, from_end: i64, to_start: i64, to_end: i64, value: i64) -> (r:
    i64)
    requires
        from_start < from_end,
        -1_000_000_000 <= from_start,
        from_end <= 1_000_000_000,
        -1_000_000_000 <= to_start <= 1_000_000_000,
        -1_000_000_000 <= to_end <= 1_000_000_000,
        -1_000_000_000 <= value <= 1_000_000_000,
    ensures
        r == map_range_spec(from_start as int, from_end as int, to_start as int, to_end as int,
            value as int),
        to_start <= to_end && from_start <= value <= from_end ==> to_start <= r <= to_end,
        to_end <= to_start && from_start <= value <= from_end ==> to_end <= r <= to_start,
{
    let span_to = to_end - to_start;
    let offset = value - from_start;
    let span_from = from_end - from_start;
    proof {
        assert(-4_000_000_000_000_000_000int <= span_to * offset
            <= 4_000_000_000_000_000_000int) by (nonlinear_arith)
            requires
                -2_000_000_000 <= span_to <= 2_000_000_000,
                -2_000_000_000 <= offset <= 2_000_000_000,
        ;
        lemma_tdiv_mag(span_to * offset, 4_000_000_000_000_000_000int, span_from as int);
        if 0 <= offset <= span_from {
            if span_to >= 0 {
                assert(0 <= span_to * offset <= span_to * span_from) by (nonlinear_arith)
                    requires
                        span_to >= 0,
                        0 <= offset <= span_from,
                ;
                assert((span_to * offset) / (span_from as int) <= span_to) by (nonlinear_arith)
                    requires
                        span_from >= 1,
                        0 <= span_to * offset <= span_to * span_from,
                        span_to >= 0,
                ;
            } else {
                assert(span_to * span_from <= span_to * offset <= 0) by (nonlinear_arith)
                    requires
                        span_to < 0,
                        0 <= offset <= span_from,
                ;
                assert(span_to <= tdiv(span_to * offset, span_from as int) <= 0) by {
                    assert(0 <= -(span_to * offset) <= (-span_to) * span_from)
                        by (nonlinear_arith)
                        requires
                            span_to * span_from <= span_to * offset <= 0,
                    ;
                    assert((-(span_to * offset)) / (span_from as int) <= -span_to)
                        by (nonlinear_arith)
                        requires
                            span_from >= 1,
                            0 <= -(span_to * offset) <= (-span_to) * span_from,
                            span_to < 0,
                    ;
                    lemma_tdiv_odd(-(span_to * offset), span_from as int);
                }
            }
        }
    }
    to_start + (span_to * offset) / span_from
}

} // verus!

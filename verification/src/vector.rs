//! Fixed-point 2D and 3D vector primitives.

use vstd::prelude::*;
use crate::fixed::{fp_mul, fp_mul_spec, isqrt, lemma_sqrt_floor_bounds, lemma_tdiv_err,
    lemma_tdiv_scaled_bound, sqrt_floor, tdiv, UNIT};

verus! {

/// A 2D vector of fixed-point scalars.
#[derive(Clone, Copy, Debug, PartialEq, Eq, Structural)]
pub struct Vec2 {
    pub x: i64,
    pub y: i64,
}

/// A 3D vector of fixed-point scalars.
#[derive(Clone, Copy, Debug, PartialEq, Eq, Structural)]
pub struct Vec3 {
    pub x: i64,
    pub y: i64,
    pub z: i64,
}

impl Vec2 {
    /// Builds a vector from its components.
    pub fn new(x: i64, y: i64) -> (v: Vec2)
        ensures
            v == (Vec2 { x, y }),
    {
        Vec2 { x, y }
    }

    /// The components as a pair.
    pub fn xy(&self) -> (r: (i64, i64))
        ensures
            r.0 == self.x && r.1 == self.y,
    {
        (self.x, self.y)
    }

    /// Componentwise sum.
    pub fn add(&self, other: &Vec2) -> (r: Vec2)
        requires
            i64::MIN <= self.x + other.x <= i64::MAX,
            i64::MIN <= self.y + other.y <= i64::MAX,
        ensures
            r == (Vec2 { x: (self.x + other.x) as i64, y: (self.y + other.y) as i64 }),
    {
        Vec2 { x: self.x + other.x, y: self.y + other.y }
    }

    /// Componentwise difference, `self` minus `other`.
    pub fn diff(&self, other: &Vec2) -> (r: Vec2)
        requires
            i64::MIN <= self.x - other.x <= i64::MAX,
            i64::MIN <= self.y - other.y <= i64::MAX,
        ensures
            r == (Vec2 { x: (self.x - other.x) as i64, y: (self.y - other.y) as i64 }),
    {
        Vec2 { x: self.x - other.x, y: self.y - other.y }
    }

    /// The vector scaled by a fixed-point factor.
    pub fn scale(&self, factor: i64) -> (r: Vec2)
        requires
            i64::MIN <= self.x * factor <= i64::MAX,
            i64::MIN <= self.y * factor <= i64::MAX,
        ensures
            r == (Vec2 {
                x: fp_mul_spec(self.x as int, factor as int) as i64,
                y: fp_mul_spec(self.y as int, factor as int) as i64,
            }),
    {
        Vec2 { x: fp_mul(self.x, factor), y: fp_mul(self.y, factor) }
    }

    /// Fixed-point dot product.
    pub fn dot(&self, other: &Vec2) -> (r: i64)
        requires
            i64::MIN <= self.x * other.x <= i64::MAX,
            i64::MIN <= self.y * other.y <= i64::MAX,
            i64::MIN <= fp_mul_spec(self.x as int, other.x as int) + fp_mul_spec(
                self.y as int,
                other.y as int,
            ) <= i64::MAX,
        ensures
            r == fp_mul_spec(self.x as int, other.x as int) + fp_mul_spec(
                self.y as int,
                other.y as int,
            ),
    {
        fp_mul(self.x, other.x) + fp_mul(self.y, other.y)
    }

    /// The squared magnitude in raw (unscaled) units.
    pub fn mag_sq(&self) -> (r: i64)
        requires
            -2_000_000_000 <= self.x <= 2_000_000_000,
            -2_000_000_000 <= self.y <= 2_000_000_000,
        ensures
            r == self.x * self.x + self.y * self.y,
    {
        proof {
            lemma_square_bound(self.x as int, 2_000_000_000);
            lemma_square_bound(self.y as int, 2_000_000_000);
        }
        self.x * self.x + self.y * self.y
    }
}

impl Vec3 {
    /// Builds a vector from its components.
    pub fn new(x: i64, y: i64, z: i64) -> (v: Vec3)
        ensures
            v == (Vec3 { x, y, z }),
    {
        Vec3 { x, y, z }
    }

    /// The components as a triple.
    pub fn xyz(&self) -> (r: (i64, i64, i64))
        ensures
            r.0 == self.x && r.1 == self.y && r.2 == self.z,
    {
        (self.x, self.y, self.z)
    }

    /// Componentwise sum.
    pub fn add(&self, other: &Vec3) -> (r: Vec3)
        requires
            i64::MIN <= self.x + other.x <= i64::MAX,
            i64::MIN <= self.y + other.y <= i64::MAX,
            i64::MIN <= self.z + other.z <= i64::MAX,
        ensures
            r == (Vec3 {
                x: (self.x + other.x) as i64,
                y: (self.y + other.y) as i64,
                z: (self.z + other.z) as i64,
            }),
    {
        Vec3 { x: self.x + other.x, y: self.y + other.y, z: self.z + other.z }
    }

    /// Componentwise difference, `self` minus `other`.
    pub fn diff(&self, other: &Vec3) -> (r: Vec3)
        requires
            i64::MIN <= self.x - other.x <= i64::MAX,
            i64::MIN <= self.y - other.y <= i64::MAX,
            i64::MIN <= self.z - other.z <= i64::MAX,
        ensures
            r == (Vec3 {
                x: (self.x - other.x) as i64,
                y: (self.y - other.y) as i64,
                z: (self.z - other.z) as i64,
            }),
    {
        Vec3 { x: self.x - other.x, y: self.y - other.y, z: self.z - other.z }
    }

    /// The vector scaled by a fixed-point factor.
    pub fn scale(&self, factor: i64) -> (r: Vec3)
        requires
            i64::MIN <= self.x * factor <= i64::MAX,
            i64::MIN <= self.y * factor <= i64::MAX,
            i64::MIN <= self.z * factor <= i64::MAX,
        ensures
            r == (Vec3 {
                x: fp_mul_spec(self.x as int, factor as int) as i64,
                y: fp_mul_spec(self.y as int, factor as int) as i64,
                z: fp_mul_spec(self.z as int, factor as int) as i64,
            }),
    {
        Vec3 { x: fp_mul(self.x, factor), y: fp_mul(self.y, factor), z: fp_mul(self.z, factor) }
    }
}

/// The smallest squared input magnitude for which [`normalize`] promises
/// a unit-length result: the square of `15000`.
pub const NORM_INPUT_MIN_SQ: i64 = 225_000_000;

/// How far, in millionths, the length of a normalized vector may fall
/// from one unit when the input is long enough.
pub const NORM_TOLERANCE: i64 = 100;

/// The vector `(x, y)` scaled so that its length is one fixed-point unit,
/// rounding each component toward zero; the zero vector stays zero.
pub open spec fn normalize_spec(x: int, y: int) -> Vec2 {
    let len = sqrt_floor((x * x + y * y) as nat) as int;
    if len == 0 {
        Vec2 { x: 0, y: 0 }
    } else {
        Vec2 { x: tdiv(x * UNIT, len) as i64, y: tdiv(y * UNIT, len) as i64 }
    }
}

/// A vector long enough for normalization divides by a large enough root
/// that its image lies within [`NORM_TOLERANCE`] of unit length.
pub proof fn lemma_normalize_unit_length(x: int, y: int)
    requires
        -1_000_000_000 <= x <= 1_000_000_000,
        -1_000_000_000 <= y <= 1_000_000_000,
        x * x + y * y >= NORM_INPUT_MIN_SQ,
    ensures
        ({
            let r = normalize_spec(x, y);
            ((UNIT - NORM_TOLERANCE) as int) * ((UNIT - NORM_TOLERANCE) as int) <= (r.x as int)
                * (r.x as int) + (r.y as int) * (r.y as int) <= ((UNIT + NORM_TOLERANCE) as int)
                * ((UNIT + NORM_TOLERANCE) as int)
        }),
{
    let ms = x * x + y * y;
    lemma_sqrt_floor_bounds(ms as nat);
    let len = sqrt_floor(ms as nat) as int;
    assert(len >= 15_000) by (nonlinear_arith)
        requires
            ms >= 225_000_000,
            ms < (len + 1) * (len + 1),
            len >= 0,
    ;
    assert(-len <= x <= len && -len <= y <= len) by (nonlinear_arith)
        requires
            x * x + y * y == ms,
            ms < (len + 1) * (len + 1),
            len >= 1,
    ;
    lemma_tdiv_scaled_bound(x, len, UNIT as int);
    lemma_tdiv_scaled_bound(y, len, UNIT as int);
    let rx = tdiv(x * UNIT, len);
    let ry = tdiv(y * UNIT, len);
    lemma_tdiv_err(x * UNIT, len);
    lemma_tdiv_err(y * UNIT, len);
    let ex = x * UNIT - len * rx;
    let ey = y * UNIT - len * ry;
    let m = rx * rx + ry * ry;
    // the squared length of the result, scaled by the squared root,
    // differs from the scaled input magnitude only by the truncation
    // remainders: each component is squared separately, then summed
    assert((len * len) * (rx * rx) == (x * x) * ((UNIT as int) * (UNIT as int)) - 2 * (
    UNIT as int) * (x * ex) + ex * ex) by (nonlinear_arith)
        requires
            len * rx == x * UNIT - ex,
    ;
    assert((len * len) * (ry * ry) == (y * y) * ((UNIT as int) * (UNIT as int)) - 2 * (
    UNIT as int) * (y * ey) + ey * ey) by (nonlinear_arith)
        requires
            len * ry == y * UNIT - ey,
    ;
    assert((len * len) * m == (len * len) * (rx * rx) + (len * len) * (ry * ry))
        by (nonlinear_arith)
        requires
            m == rx * rx + ry * ry,
    ;
    assert(ms * ((UNIT as int) * (UNIT as int)) == (x * x) * ((UNIT as int) * (UNIT as int)) + (y
        * y) * ((UNIT as int) * (UNIT as int))) by (nonlinear_arith)
        requires
            ms == x * x + y * y,
    ;
    assert((len * len) * m == ms * ((UNIT as int) * (UNIT as int)) - 2 * (UNIT as int) * (x * ex)
        - 2 * (UNIT as int) * (y * ey) + (ex * ex + ey * ey));
    assert(-(len * len) <= x * ex <= len * len && -(len * len) <= y * ey <= len * len)
        by (nonlinear_arith)
        requires
            -len <= x <= len,
            -len <= y <= len,
            -(len - 1) <= ex <= len - 1,
            -(len - 1) <= ey <= len - 1,
            len >= 1,
    ;
    assert(0 <= ex * ex + ey * ey <= 2 * (len * len)) by (nonlinear_arith)
        requires
            -(len - 1) <= ex <= len - 1,
            -(len - 1) <= ey <= len - 1,
            len >= 1,
    ;
    // lower bound: the input magnitude is at least the squared root
    assert((len * len) * m >= (len * len) * ((UNIT as int) * (UNIT as int) - 4 * (UNIT as int)))
        by (nonlinear_arith)
        requires
            (len * len) * m == ms * ((UNIT as int) * (UNIT as int)) - 2 * (UNIT as int) * (x
                * ex) - 2 * (UNIT as int) * (y * ey) + (ex * ex + ey * ey),
            x * ex <= len * len,
            y * ey <= len * len,
            ex * ex + ey * ey >= 0,
            ms >= len * len,
    ;
    assert(m >= (UNIT as int) * (UNIT as int) - 4 * (UNIT as int)) by (nonlinear_arith)
        requires
            (len * len) * m >= (len * len) * ((UNIT as int) * (UNIT as int) - 4 * (UNIT as int)),
            len >= 1,
    ;
    // upper bound: the input magnitude is below the next square, and the
    // cross term is absorbed because the root is at least 15000
    assert(ms <= len * len + 2 * len) by (nonlinear_arith)
        requires
            ms < (len + 1) * (len + 1),
    ;
    assert(2 * ((UNIT as int) * (UNIT as int)) * len <= 133_333_334 * (len * len))
        by (nonlinear_arith)
        requires
            len >= 15_000,
    ;
    assert((len * len) * m <= (len * len) * ((UNIT as int) * (UNIT as int) + 137_333_336))
        by (nonlinear_arith)
        requires
            (len * len) * m == ms * ((UNIT as int) * (UNIT as int)) - 2 * (UNIT as int) * (x
                * ex) - 2 * (UNIT as int) * (y * ey) + (ex * ex + ey * ey),
            -(len * len) <= x * ex,
            -(len * len) <= y * ey,
            ex * ex + ey * ey <= 2 * (len * len),
            ms <= len * len + 2 * len,
            2 * ((UNIT as int) * (UNIT as int)) * len <= 133_333_334 * (len * len),
    ;
    assert(m <= (UNIT as int) * (UNIT as int) + 137_333_336) by (nonlinear_arith)
        requires
            (len * len) * m <= (len * len) * ((UNIT as int) * (UNIT as int) + 137_333_336),
            len >= 1,
    ;
    assert(((UNIT - NORM_TOLERANCE) as int) * ((UNIT - NORM_TOLERANCE) as int) <= m
        <= ((UNIT + NORM_TOLERANCE) as int) * ((UNIT + NORM_TOLERANCE) as int))
        by (nonlinear_arith)
        requires
            (UNIT as int) * (UNIT as int) - 4 * (UNIT as int) <= m <= (UNIT as int) * (
            UNIT as int) + 137_333_336,
    ;
}

/// Scales a vector to unit fixed-point length; a zero vector is returned
/// unchanged rather than dividing by zero. An input of magnitude at least
/// the square root of [`NORM_INPUT_MIN_SQ`] comes out within
/// [`NORM_TOLERANCE`] of unit length.
pub fn normalize(v: &Vec2) -> (r: Vec2)
    requires
        -1_000_000_000 <= v.x <= 1_000_000_000,
        -1_000_000_000 <= v.y <= 1_000_000_000,
    ensures
        r == normalize_spec(v.x as int, v.y as int),
        -UNIT <= r.x <= UNIT,
        -UNIT <= r.y <= UNIT,
        v.x * v.x + v.y * v.y >= NORM_INPUT_MIN_SQ ==> (UNIT - NORM_TOLERANCE) * (UNIT
            - NORM_TOLERANCE) <= r.x * r.x + r.y * r.y <= (UNIT + NORM_TOLERANCE) * (UNIT
            + NORM_TOLERANCE),
{
    proof {
        if v.x * v.x + v.y * v.y >= NORM_INPUT_MIN_SQ {
            lemma_normalize_unit_length(v.x as int, v.y as int);
        }
    }
    let ms = v.mag_sq();
    proof {
        lemma_square_bound(v.x as int, 1_000_000_000);
        lemma_square_bound(v.y as int, 1_000_000_000);
    }
    let len_u = isqrt(ms as u64);
    proof {
        lemma_sqrt_floor_bounds(ms as nat);
        assert(len_u <= 1_500_000_000) by (nonlinear_arith)
            requires
                len_u * len_u <= 2_000_000_000_000_000_000,
        ;
    }
    if len_u == 0 {
        Vec2 { x: 0, y: 0 }
    } else {
        let len = len_u as i64;
        proof {
            assert(-len <= v.x <= len && -len <= v.y <= len) by (nonlinear_arith)
                requires
                    (v.x as int) * (v.x as int) + (v.y as int) * (v.y as int) < (len + 1) * (len
                        + 1),
                    len >= 1,
            ;
            lemma_tdiv_scaled_bound(v.x as int, len as int, UNIT as int);
            lemma_tdiv_scaled_bound(v.y as int, len as int, UNIT as int);
            assert((v.x as int) * (UNIT as int) == (v.x * UNIT));
            assert(tdiv(v.x * UNIT, len as int) == tdiv((v.x as int) * (UNIT as int), len as int));
        }
        Vec2 { x: (v.x * UNIT) / len, y: (v.y * UNIT) / len }
    }
}

/// For `|x| <= b`, the square of `x` is at most the square of `b`.
proof fn lemma_square_bound(x: int, b: int)
    requires
        -b <= x <= b,
    ensures
        0 <= x * x <= b * b,
{
    assert(0 <= x * x <= b * b) by (nonlinear_arith)
        requires
            -b <= x <= b,
    ;
}

} // verus!

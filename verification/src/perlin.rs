//! Gradient noise: a coarse lattice of random unit vectors, sampled into a
//! smooth scalar field by blending the four corner dot products of each
//! lattice cell. Lattice lookups wrap modulo the lattice dimensions, so the
//! field tiles seamlessly, as the toroidal world requires.

use vstd::prelude::*;
use vstd::arithmetic::div_mod::{lemma_fundamental_div_mod_converse, lemma_mod_add_multiples_vanish};
use crate::fixed::{fp_mul_spec, lemma_fp_mul_mag, lemma_tdiv_err, lemma_tdiv_mag, tdiv,
    UNIT};
use crate::rng::{lcg_iter_spec, lcg_next, random_seed};
use crate::utils::{interpolate, interpolate_spec, lemma_interpolate_convex,
    lemma_interpolate_endpoints};
use crate::vector::{normalize, normalize_spec, Vec2, NORM_INPUT_MIN_SQ,
    NORM_TOLERANCE};

verus! {

/// A vector with both components within one fixed-point unit.
pub open spec fn unit_bounded(v: Vec2) -> bool {
    -UNIT <= v.x <= UNIT && -UNIT <= v.y <= UNIT
}

/// Raw gradient draws are scaled by this factor before normalization, so
/// every nonzero draw is long enough for [`normalize`]'s unit-length
/// guarantee.
pub const RAW_SCALE: i64 = 15_000;

/// The largest magnitude a corner weight can reach: a near-unit gradient
/// dotted with an offset inside a unit cell, plus truncation slack.
pub const WEIGHT_MAX: i64 = 1_414_400;

/// The largest magnitude a field sample can reach: corner weights blended
/// twice, each blend adding at most two units of truncation.
pub const SAMPLE_MAX: i64 = 1_414_404;

/// A gradient vector is the zero vector or has length within
/// [`NORM_TOLERANCE`] of one fixed-point unit.
pub open spec fn gradient_norm_ok(v: Vec2) -> bool {
    v == (Vec2 { x: 0, y: 0 }) || ((UNIT - NORM_TOLERANCE) as int) * ((UNIT
        - NORM_TOLERANCE) as int) <= (v.x as int) * (v.x as int) + (v.y as int) * (v.y as int)
        <= ((UNIT + NORM_TOLERANCE) as int) * ((UNIT + NORM_TOLERANCE) as int)
}

/// The raw vector component drawn from generator state `s`: a value in
/// `[-65536, 65536]`.
pub open spec fn raw_component_spec(s: int) -> int {
    s % 131_073 - 65_536
}

/// Draws one raw vector component from the generator state.
fn raw_component(s: u32) -> (r: i64)
    ensures
        r == raw_component_spec(s as int),
        -65_536 <= r <= 65_536,
{
    (s % 131_073) as i64 - 65_536
}

/// The lattice gradient at index `i` of the stream seeded with `seed`:
/// two raw components drawn in order, scaled up by [`RAW_SCALE`] and
/// normalized to unit length.
pub open spec fn gradient_at(seed: u32, i: int) -> Vec2 {
    normalize_spec(
        RAW_SCALE * raw_component_spec(lcg_iter_spec(seed as int, (2 * i + 1) as nat)),
        RAW_SCALE * raw_component_spec(lcg_iter_spec(seed as int, (2 * i + 2) as nat)),
    )
}

/// The dot product of a corner gradient with the offset from that corner
/// to the sample point.
pub open spec fn corner_weight_spec(g: Vec2, rx: int, ry: int) -> int {
    fp_mul_spec(g.x as int, rx) + fp_mul_spec(g.y as int, ry)
}

/// The whole gradient lattice drawn from `seed`, as a sequence.
pub open spec fn lattice_of_seed(seed: u32, gw: int, gh: int) -> Seq<Vec2> {
    Seq::new((gw * gh) as nat, |i: int| gradient_at(seed, i))
}

/// The gradient of lattice point `(ix, iy)` in a gradient sequence laid
/// out row-major with the given dimensions, wrapping toroidally.
pub open spec fn lattice_over(gradients: Seq<Vec2>, gw: int, gh: int, ix: int, iy: int) -> Vec2 {
    gradients[(iy % gh) * gw + (ix % gw)]
}

/// The blended value of one lattice cell at fractional offsets
/// `(tx, ty)` from its lower corner: the four corner weights, blended
/// first along x and then along y.
pub open spec fn cell_blend(
    gradients: Seq<Vec2>,
    gw: int,
    gh: int,
    ix: int,
    iy: int,
    tx: int,
    ty: int,
) -> int {
    let w00 = corner_weight_spec(lattice_over(gradients, gw, gh, ix, iy), tx, ty);
    let w10 = corner_weight_spec(lattice_over(gradients, gw, gh, ix + 1, iy), tx - UNIT, ty);
    let w01 = corner_weight_spec(lattice_over(gradients, gw, gh, ix, iy + 1), tx, ty - UNIT);
    let w11 = corner_weight_spec(lattice_over(gradients, gw, gh, ix + 1, iy + 1), tx - UNIT, ty
        - UNIT);
    interpolate_spec(interpolate_spec(w00, w10, tx), interpolate_spec(w01, w11, tx), ty)
}

/// The field value sampled at `(ox, oy)` over a gradient sequence: the
/// blend of the enclosing lattice cell at the position's fractional
/// offsets.
pub open spec fn sample_over(
    gradients: Seq<Vec2>,
    gw: int,
    gh: int,
    resolution: int,
    ox: int,
    oy: int,
) -> int {
    cell_blend(gradients, gw, gh, ox / resolution, oy / resolution, tdiv((ox % resolution)
        * UNIT, resolution), tdiv((oy % resolution) * UNIT, resolution))
}

/// Continuity across vertical cell boundaries: a cell's blend evaluated
/// at a full-unit x offset equals its right neighbor cell's blend at a
/// zero x offset, exactly. The two interpolants meet without a seam.
pub proof fn lemma_blend_seamless_x(gradients: Seq<Vec2>, gw: int, gh: int, ix: int, iy: int,
    ty: int)
    ensures
        cell_blend(gradients, gw, gh, ix, iy, UNIT as int, ty) == cell_blend(gradients, gw, gh,
            ix + 1, iy, 0, ty),
{
    let ui = UNIT as int;
    let w10 = corner_weight_spec(lattice_over(gradients, gw, gh, ix + 1, iy), 0, ty);
    let w11 = corner_weight_spec(lattice_over(gradients, gw, gh, ix + 1, iy + 1), 0, ty - UNIT);
    lemma_interpolate_endpoints(corner_weight_spec(lattice_over(gradients, gw, gh, ix, iy), ui,
        ty), w10);
    lemma_interpolate_endpoints(corner_weight_spec(lattice_over(gradients, gw, gh, ix, iy + 1),
        ui, ty - UNIT), w11);
    lemma_interpolate_endpoints(w10, corner_weight_spec(lattice_over(gradients, gw, gh, ix + 2,
        iy), -(ui), ty));
    lemma_interpolate_endpoints(w11, corner_weight_spec(lattice_over(gradients, gw, gh, ix + 2,
        iy + 1), -(ui), ty - UNIT));
}

/// Continuity across horizontal cell boundaries: a cell's blend at a
/// full-unit y offset equals its upper neighbor cell's blend at a zero y
/// offset, exactly.
pub proof fn lemma_blend_seamless_y(gradients: Seq<Vec2>, gw: int, gh: int, ix: int, iy: int,
    tx: int)
    ensures
        cell_blend(gradients, gw, gh, ix, iy, tx, UNIT as int) == cell_blend(gradients, gw, gh,
            ix, iy + 1, tx, 0),
{
    let ui = UNIT as int;
    let w01 = corner_weight_spec(lattice_over(gradients, gw, gh, ix, iy + 1), tx, 0);
    let w11 = corner_weight_spec(lattice_over(gradients, gw, gh, ix + 1, iy + 1), tx - UNIT, 0);
    let a_low = interpolate_spec(corner_weight_spec(lattice_over(gradients, gw, gh, ix, iy), tx,
        ui), corner_weight_spec(lattice_over(gradients, gw, gh, ix + 1, iy), tx - UNIT, ui), tx);
    let a_high = interpolate_spec(w01, w11, tx);
    lemma_interpolate_endpoints(a_low, a_high);
    let b_high = interpolate_spec(corner_weight_spec(lattice_over(gradients, gw, gh, ix, iy + 2),
        tx, -(ui)), corner_weight_spec(lattice_over(gradients, gw, gh, ix + 1, iy + 2), tx - UNIT,
        -(ui)), tx);
    lemma_interpolate_endpoints(a_high, b_high);
}

/// The sample at `(x, y)` of a row-major sample sequence with the given
/// dimensions, wrapping both coordinates toroidally.
pub open spec fn noise_at_over(values: Seq<i64>, w: int, h: int, x: int, y: int) -> i64 {
    values[(y % h) * w + (x % w)]
}

/// The whole sampled field drawn from `seed`: a square lattice of `g`
/// gradients per side, sampled at `resolution` outputs per lattice cell.
pub open spec fn noise_of_seed(seed: u32, g: int, resolution: int) -> Seq<i64> {
    let w = resolution * g;
    Seq::new((w * w) as nat, |i: int| sample_over(lattice_of_seed(seed, g, g), g, g, resolution,
        i % w, i / w) as i64)
}

/// A coarse lattice of random unit gradient vectors, one per lattice point.
pub struct Grid {
    pub width: u32,
    pub height: u32,
    pub gradients: Vec<Vec2>,
}

impl Grid {
    /// Positive dimensions and one gradient per lattice point, each
    /// component-bounded and of near-unit length (or the zero vector).
    pub open spec fn wf(self) -> bool {
        &&& self.width >= 1
        &&& self.height >= 1
        &&& self.gradients@.len() == (self.width as int) * (self.height as int)
        &&& forall|i: int|
            0 <= i < self.gradients@.len() ==> unit_bounded(#[trigger] self.gradients@[i])
        &&& forall|i: int|
            0 <= i < self.gradients@.len() ==> gradient_norm_ok(#[trigger] self.gradients@[i])
    }

    /// The gradient of the lattice point `(ix, iy)`, wrapping toroidally.
    pub open spec fn lattice_vec(self, ix: int, iy: int) -> Vec2 {
        lattice_over(self.gradients@, self.width as int, self.height as int, ix, iy)
    }

    /// Builds a lattice of the given dimensions from fresh random
    /// gradients: the result is the seeded construction for some drawn
    /// seed.
    pub fn new(width: u32, height: u32) -> (g: Grid)
        requires
            1 <= width,
            1 <= height,
            width * height <= u32::MAX,
        ensures
            g.wf(),
            g.width == width,
            g.height == height,
            exists|s: u32| g.gradients@ == lattice_of_seed(s, width as int, height as int),
    {
        let seed = random_seed();
        let g = Grid::from_seed(width, height, seed);
        proof {
            assert(g.gradients@ =~= lattice_of_seed(seed, width as int, height as int));
        }
        g
    }

    /// Builds the lattice deterministically from `seed`: the gradient at
    /// index `i` is exactly `gradient_at(seed, i)`.
    pub fn from_seed(width: u32, height: u32, seed: u32) -> (g: Grid)
        requires
            1 <= width,
            1 <= height,
            width * height <= u32::MAX,
        ensures
            g.wf(),
            g.width == width,
            g.height == height,
            forall|i: int|
                0 <= i < (width as int) * (height as int) ==> g.gradients@[i] == gradient_at(
                    seed, i),
    {
        let n = (width as usize) * (height as usize);
        let mut gradients: Vec<Vec2> = Vec::new();
        let mut state = seed;
        let mut i: usize = 0;
        while i < n
            invariant
                i <= n,
                n == (width as int) * (height as int),
                gradients@.len() == i,
                state == lcg_iter_spec(seed as int, (2 * i) as nat),
                forall|j: int| 0 <= j < i ==> gradients@[j] == gradient_at(seed, j),
                forall|j: int| 0 <= j < i ==> unit_bounded(#[trigger] gradients@[j]),
                forall|j: int| 0 <= j < i ==> gradient_norm_ok(#[trigger] gradients@[j]),
            decreases n - i,
        {
            state = lcg_next(state);
            proof {
                assert(lcg_iter_spec(seed as int, (2 * i + 1) as nat) == crate::rng::lcg_next_spec(
                    lcg_iter_spec(seed as int, (2 * i) as nat)));
            }
            let rx = raw_component(state) * RAW_SCALE;
            state = lcg_next(state);
            proof {
                assert(lcg_iter_spec(seed as int, (2 * i + 2) as nat) == crate::rng::lcg_next_spec(
                    lcg_iter_spec(seed as int, (2 * i + 1) as nat)));
            }
            let ry = raw_component(state) * RAW_SCALE;
            proof {
                if rx != 0 || ry != 0 {
                    lemma_scaled_draw_is_long(rx as int, ry as int);
                }
            }
            let v = normalize(&Vec2 { x: rx, y: ry });
            gradients.push(v);
            i = i + 1;
        }
        Grid { width, height, gradients }
    }

    /// The gradient stored for lattice point `(ix, iy)`, wrapping toroidally.
    fn lattice(&self, ix: u32, iy: u32) -> (g: Vec2)
        requires
            self.wf(),
        ensures
            g == self.lattice_vec(ix as int, iy as int),
            unit_bounded(g),
            gradient_norm_ok(g),
    {
        let xm = ix % self.width;
        let ym = iy % self.height;
        let _len = self.gradients.len();
        proof {
            assert((ym as int) * (self.width as int) + (xm as int) < (self.width as int) * (
            self.height as int)) by (nonlinear_arith)
                requires
                    0 <= xm < self.width as int,
                    0 <= ym < self.height as int,
            ;
            assert((ym as int) * (self.width as int) >= 0) by (nonlinear_arith)
                requires
                    ym >= 0,
                    self.width as int >= 0,
            ;
        }
        self.gradients[(ym as usize) * (self.width as usize) + (xm as usize)]
    }

    /// The field value sampled at output position `(ox, oy)` for the given
    /// resolution: the smooth blend of the four corner weights of the
    /// enclosing lattice cell.
    pub open spec fn sample_spec(self, resolution: int, ox: int, oy: int) -> int {
        sample_over(self.gradients@, self.width as int, self.height as int, resolution, ox, oy)
    }

    /// Samples the field at one output position.
    fn sample(&self, resolution: u32, ox: u32, oy: u32) -> (r: i64)
        requires
            self.wf(),
            resolution >= 1,
            ox + 1 <= u32::MAX,
            oy + 1 <= u32::MAX,
        ensures
            r == self.sample_spec(resolution as int, ox as int, oy as int),
            -SAMPLE_MAX <= r <= SAMPLE_MAX,
    {
        let ix = ox / resolution;
        let iy = oy / resolution;
        let fx = ox % resolution;
        let fy = oy % resolution;
        let tx = ((fx as i64) * UNIT) / (resolution as i64);
        let ty = ((fy as i64) * UNIT) / (resolution as i64);
        proof {
            lemma_frac_offset_range(fx as int, resolution as int);
            lemma_frac_offset_range(fy as int, resolution as int);
        }
        let g00 = self.lattice(ix, iy);
        let g10 = self.lattice(ix + 1, iy);
        let g01 = self.lattice(ix, iy + 1);
        let g11 = self.lattice(ix + 1, iy + 1);
        let w00 = corner_weight(g00, tx, ty);
        let w10 = corner_weight(g10, tx - UNIT, ty);
        let w01 = corner_weight(g01, tx, ty - UNIT);
        let w11 = corner_weight(g11, tx - UNIT, ty - UNIT);
        let a = interpolate(w00, w10, tx);
        let b = interpolate(w01, w11, tx);
        proof {
            lemma_interpolate_convex(w00 as int, w10 as int, tx as int, WEIGHT_MAX as int);
            lemma_interpolate_convex(w01 as int, w11 as int, tx as int, WEIGHT_MAX as int);
            lemma_interpolate_convex(a as int, b as int, ty as int, WEIGHT_MAX as int + 2);
        }
        interpolate(a, b, ty)
    }

    /// Produces the sampled field: `resolution` output samples per lattice
    /// cell along each axis, row-major.
    pub fn generate_noise(&self, resolution: u32) -> (out: Noise)
        requires
            self.wf(),
            resolution >= 1,
            (resolution * self.width) * (resolution * self.height) <= u32::MAX,
        ensures
            out.wf(),
            out.width == resolution * self.width,
            out.height == resolution * self.height,
            forall|i: int|
                0 <= i < out.values@.len() ==> out.values@[i] == self.sample_spec(
                    resolution as int, i % (out.width as int), i / (out.width as int)),
    {
        proof {
            assert((resolution as int) * (self.width as int) <= (resolution as int) * (
            self.width as int) * ((resolution as int) * (self.height as int)))
                by (nonlinear_arith)
                requires
                    resolution as int >= 1,
                    self.width as int >= 1,
                    self.height as int >= 1,
            ;
            assert((resolution as int) * (self.height as int) <= (resolution as int) * (
            self.width as int) * ((resolution as int) * (self.height as int)))
                by (nonlinear_arith)
                requires
                    resolution as int >= 1,
                    self.width as int >= 1,
                    self.height as int >= 1,
            ;
        }
        let width = resolution * self.width;
        let height = resolution * self.height;
        proof {
            assert((width as int) >= 1 && (height as int) >= 1) by (nonlinear_arith)
                requires
                    width as int == (resolution as int) * (self.width as int),
                    height as int == (resolution as int) * (self.height as int),
                    resolution as int >= 1,
                    self.width as int >= 1,
                    self.height as int >= 1,
            ;
        }
        let mut values: Vec<i64> = Vec::new();
        let mut oy: u32 = 0;
        while oy < height
            invariant
                self.wf(),
                resolution >= 1,
                oy <= height,
                width == resolution * self.width,
                height == resolution * self.height,
                (width as int) * (height as int) <= u32::MAX,
                width >= 1,
                height >= 1,
                values@.len() == (oy as int) * (width as int),
                forall|i: int|
                    0 <= i < values@.len() ==> values@[i] == self.sample_spec(resolution as int,
                        i % (width as int), i / (width as int)),
                forall|i: int|
                    0 <= i < values@.len() ==> -SAMPLE_MAX <= #[trigger] values@[i]
                        <= SAMPLE_MAX,
            decreases height - oy,
        {
            let mut ox: u32 = 0;
            proof {
                lemma_row_capacity(oy as int, width as int, height as int);
            }
            while ox < width
                invariant
                    self.wf(),
                    resolution >= 1,
                    ox <= width,
                    oy < height,
                    width == resolution * self.width,
                    height == resolution * self.height,
                    (width as int) * (height as int) <= u32::MAX,
                    width >= 1,
                    height >= 1,
                    (oy as int) * (width as int) + (width as int) <= (width as int) * (
                    height as int),
                    values@.len() == (oy as int) * (width as int) + (ox as int),
                    forall|i: int|
                        0 <= i < values@.len() ==> values@[i] == self.sample_spec(
                            resolution as int, i % (width as int), i / (width as int)),
                    forall|i: int|
                        0 <= i < values@.len() ==> -SAMPLE_MAX <= #[trigger] values@[i]
                            <= SAMPLE_MAX,
                decreases width - ox,
            {
                let v = self.sample(resolution, ox, oy);
                proof {
                    lemma_fundamental_div_mod_converse((oy as int) * (width as int) + (ox as int),
                        width as int, oy as int, ox as int);
                }
                values.push(v);
                ox = ox + 1;
            }
            proof {
                assert(((oy as int) + 1) * (width as int) == (oy as int) * (width as int) + (
                width as int)) by (nonlinear_arith);
            }
            oy = oy + 1;
        }
        proof {
            assert((height as int) * (width as int) == (width as int) * (height as int))
                by (nonlinear_arith);
        }
        Noise { width, height, values }
    }
}

/// A nonzero raw draw scaled by [`RAW_SCALE`] is long enough for the
/// unit-length guarantee of [`normalize`].
proof fn lemma_scaled_draw_is_long(rx: int, ry: int)
    requires
        rx != 0 || ry != 0,
        rx % RAW_SCALE as int == 0,
        ry % RAW_SCALE as int == 0,
    ensures
        rx * rx + ry * ry >= NORM_INPUT_MIN_SQ,
{
    if rx != 0 {
        assert(rx * rx >= (RAW_SCALE as int) * (RAW_SCALE as int) && ry * ry >= 0)
            by (nonlinear_arith)
            requires
                rx != 0,
                rx % 15_000int == 0,
        ;
    } else {
        assert(ry * ry >= (RAW_SCALE as int) * (RAW_SCALE as int) && rx * rx >= 0)
            by (nonlinear_arith)
            requires
                ry != 0,
                ry % 15_000int == 0,
        ;
    }
}

/// A near-unit gradient dotted with an offset inside a unit cell stays
/// within [`WEIGHT_MAX`], by the Cauchy-Schwarz inequality.
#[verifier::rlimit(60)]
proof fn lemma_corner_weight_mag(g: Vec2, rx: int, ry: int)
    requires
        gradient_norm_ok(g),
        -UNIT <= rx <= UNIT,
        -UNIT <= ry <= UNIT,
    ensures
        -WEIGHT_MAX <= corner_weight_spec(g, rx, ry) <= WEIGHT_MAX,
{
    let gx = g.x as int;
    let gy = g.y as int;
    let p1 = gx * rx;
    let p2 = gy * ry;
    lemma_tdiv_err(p1, UNIT as int);
    lemma_tdiv_err(p2, UNIT as int);
    if g == (Vec2 { x: 0, y: 0 }) {
        assert(p1 == 0 && p2 == 0) by (nonlinear_arith)
            requires
                gx == 0,
                gy == 0,
                p1 == gx * rx,
                p2 == gy * ry,
        ;
        assert(0int / (UNIT as int) == 0) by (nonlinear_arith);
    } else {
        // Lagrange's identity bounds the dot product by the product of
        // the squared lengths; it is assembled monomial by monomial
        let c1 = gx * ry;
        let c2 = gy * rx;
        assert(p1 * p1 == (gx * gx) * (rx * rx)) by (nonlinear_arith)
            requires
                p1 == gx * rx,
        ;
        assert(p2 * p2 == (gy * gy) * (ry * ry)) by (nonlinear_arith)
            requires
                p2 == gy * ry,
        ;
        assert(c1 * c1 == (gx * gx) * (ry * ry)) by (nonlinear_arith)
            requires
                c1 == gx * ry,
        ;
        assert(c2 * c2 == (gy * gy) * (rx * rx)) by (nonlinear_arith)
            requires
                c2 == gy * rx,
        ;
        assert(p1 * p2 == c1 * c2) by (nonlinear_arith)
            requires
                p1 == gx * rx,
                p2 == gy * ry,
                c1 == gx * ry,
                c2 == gy * rx,
        ;
        assert((gx * gx + gy * gy) * (rx * rx + ry * ry) == (gx * gx) * (rx * rx) + (gx * gx) * (
        ry * ry) + (gy * gy) * (rx * rx) + (gy * gy) * (ry * ry)) by (nonlinear_arith);
        assert((p1 + p2) * (p1 + p2) == p1 * p1 + 2 * (p1 * p2) + p2 * p2) by (nonlinear_arith);
        assert((c1 - c2) * (c1 - c2) == c1 * c1 - 2 * (c1 * c2) + c2 * c2) by (nonlinear_arith);
        assert((c1 - c2) * (c1 - c2) >= 0) by (nonlinear_arith);
        assert((gx * gx + gy * gy) * (rx * rx + ry * ry) == (p1 + p2) * (p1 + p2) + (c1 - c2) * (
        c1 - c2));
        assert(0 <= rx * rx + ry * ry <= 2 * ((UNIT as int) * (UNIT as int)))
            by (nonlinear_arith)
            requires
                -UNIT <= rx <= UNIT,
                -UNIT <= ry <= UNIT,
        ;
        assert(gx * gx + gy * gy >= 0) by (nonlinear_arith);
        assert((gx * gx + gy * gy) * (rx * rx + ry * ry) <= 1_414_355_421_400int
            * 1_414_355_421_400int) by (nonlinear_arith)
            requires
                0 <= gx * gx + gy * gy <= ((UNIT + NORM_TOLERANCE) as int) * ((UNIT
                    + NORM_TOLERANCE) as int),
                0 <= rx * rx + ry * ry <= 2 * ((UNIT as int) * (UNIT as int)),
        ;
        assert(-1_414_355_421_400 <= p1 + p2 <= 1_414_355_421_400) by (nonlinear_arith)
            requires
                (p1 + p2) * (p1 + p2) <= 1_414_355_421_400int * 1_414_355_421_400int,
        ;
        let w = tdiv(p1, UNIT as int) + tdiv(p2, UNIT as int);
        assert(-WEIGHT_MAX <= w <= WEIGHT_MAX) by (nonlinear_arith)
            requires
                -(UNIT as int - 1) <= p1 - (UNIT as int) * tdiv(p1, UNIT as int) <= UNIT as int
                    - 1,
                -(UNIT as int - 1) <= p2 - (UNIT as int) * tdiv(p2, UNIT as int) <= UNIT as int
                    - 1,
                -1_414_355_421_400 <= p1 + p2 <= 1_414_355_421_400,
                w == tdiv(p1, UNIT as int) + tdiv(p2, UNIT as int),
        ;
    }
}

/// The dot product of a gradient with a corner offset.
fn corner_weight(g: Vec2, rx: i64, ry: i64) -> (r: i64)
    requires
        unit_bounded(g),
        gradient_norm_ok(g),
        -UNIT <= rx <= UNIT,
        -UNIT <= ry <= UNIT,
    ensures
        r == corner_weight_spec(g, rx as int, ry as int),
        -WEIGHT_MAX <= r <= WEIGHT_MAX,
{
    proof {
        lemma_fp_mul_mag(g.x as int, rx as int, UNIT as int, UNIT as int);
        lemma_fp_mul_mag(g.y as int, ry as int, UNIT as int, UNIT as int);
        assert((UNIT as int) * (UNIT as int) / (UNIT as int) == UNIT as int) by (nonlinear_arith);
        lemma_corner_weight_mag(g, rx as int, ry as int);
    }
    g.dot(&Vec2 { x: rx, y: ry })
}

/// The fixed-point fractional offset within a lattice cell lies in
/// `[0, UNIT)`.
proof fn lemma_frac_offset_range(f: int, resolution: int)
    requires
        0 <= f < resolution,
    ensures
        0 <= tdiv(f * UNIT, resolution) < UNIT,
{
    assert(0 <= (f * UNIT) / resolution < UNIT) by (nonlinear_arith)
        requires
            0 <= f < resolution,
    ;
}

/// A full row still fits before the end of the output grid.
proof fn lemma_row_capacity(oy: int, width: int, height: int)
    requires
        0 <= oy < height,
        width >= 1,
    ensures
        oy * width + width <= width * height,
{
    assert(oy * width + width <= width * height) by (nonlinear_arith)
        requires
            0 <= oy < height,
            width >= 1,
    ;
}

/// A dense scalar field of fixed-point samples, indexed toroidally.
pub struct Noise {
    pub width: u32,
    pub height: u32,
    pub values: Vec<i64>,
}

impl Noise {
    /// Positive dimensions, one sample per position, all samples bounded.
    pub open spec fn wf(self) -> bool {
        &&& self.width >= 1
        &&& self.height >= 1
        &&& self.values@.len() == (self.width as int) * (self.height as int)
        &&& forall|i: int|
            0 <= i < self.values@.len() ==> -SAMPLE_MAX <= #[trigger] self.values@[i]
                <= SAMPLE_MAX
    }

    /// The sample at `(x, y)`, wrapping both coordinates toroidally.
    pub open spec fn noise_at(self, x: int, y: int) -> i64 {
        noise_at_over(self.values@, self.width as int, self.height as int, x, y)
    }

    /// Builds a field directly from its samples.
    pub fn from_values(width: u32, height: u32, values: Vec<i64>) -> (out: Noise)
        requires
            width >= 1,
            height >= 1,
            values@.len() == (width as int) * (height as int),
            forall|i: int| 0 <= i < values@.len() ==> -SAMPLE_MAX <= #[trigger] values@[i]
                <= SAMPLE_MAX,
        ensures
            out.wf(),
            out.width == width,
            out.height == height,
            out.values@ == values@,
    {
        Noise { width, height, values }
    }

    /// Reads the sample at `(x, y)`; indices wrap, so every access is in
    /// range by construction.
    pub fn get(&self, x: u32, y: u32) -> (r: i64)
        requires
            self.wf(),
        ensures
            r == self.noise_at(x as int, y as int),
            -SAMPLE_MAX <= r <= SAMPLE_MAX,
    {
        let xm = x % self.width;
        let ym = y % self.height;
        let _len = self.values.len();
        proof {
            assert((ym as int) * (self.width as int) + (xm as int) < (self.width as int) * (
            self.height as int)) by (nonlinear_arith)
                requires
                    0 <= xm < self.width as int,
                    0 <= ym < self.height as int,
            ;
            assert((ym as int) * (self.width as int) >= 0) by (nonlinear_arith)
                requires
                    ym >= 0,
                    self.width as int >= 0,
            ;
        }
        self.values[(ym as usize) * (self.width as usize) + (xm as usize)]
    }

    /// The central-difference slope estimate at `(x, y)`, halved and
    /// truncated toward zero, with wraparound lookups.
    pub open spec fn gradient_spec(self, x: int, y: int) -> Vec2 {
        Vec2 {
            x: tdiv(self.noise_at(x + 1, y) - self.noise_at(x - 1, y), 2) as i64,
            y: tdiv(self.noise_at(x, y + 1) - self.noise_at(x, y - 1), 2) as i64,
        }
    }

    /// Estimates the field slope at `(x, y)` by central differences.
    pub fn get_gradient(&self, x: u32, y: u32) -> (g: Vec2)
        requires
            self.wf(),
        ensures
            g == self.gradient_spec(x as int, y as int),
            -SAMPLE_MAX <= g.x <= SAMPLE_MAX,
            -SAMPLE_MAX <= g.y <= SAMPLE_MAX,
    {
        let xp = (((x as u64) + 1) % (self.width as u64)) as u32;
        let xm = (((x as u64) + (self.width as u64) - 1) % (self.width as u64)) as u32;
        let yp = (((y as u64) + 1) % (self.height as u64)) as u32;
        let ym = (((y as u64) + (self.height as u64) - 1) % (self.height as u64)) as u32;
        proof {
            lemma_wrap_is_mod(x as int, self.width as int);
            lemma_wrap_is_mod(y as int, self.height as int);
        }
        let dx = self.get(xp, y) - self.get(xm, y);
        let dy = self.get(x, yp) - self.get(x, ym);
        proof {
            lemma_tdiv_mag(dx as int, 2 * SAMPLE_MAX as int, 2);
            lemma_tdiv_mag(dy as int, 2 * SAMPLE_MAX as int, 2);
        }
        Vec2 { x: dx / 2, y: dy / 2 }
    }
}

/// The sampled field tiles seamlessly: moving one full period along
/// either axis lands on the very same sample, so the toroidal world sees
/// no seam at the field's edges.
pub proof fn lemma_noise_wraps(n: Noise, x: int, y: int)
    requires
        n.width >= 1,
        n.height >= 1,
    ensures
        n.noise_at(x + n.width as int, y) == n.noise_at(x, y),
        n.noise_at(x, y + n.height as int) == n.noise_at(x, y),
{
    lemma_mod_add_multiples_vanish(x, n.width as int);
    lemma_mod_add_multiples_vanish(y, n.height as int);
}

/// Wrapped coordinates index the same sample as the raw ones: reducing a
/// coordinate modulo the period first, or adding a full period before
/// reducing, changes nothing.
proof fn lemma_wrap_is_mod(x: int, m: int)
    requires
        x >= 0,
        m >= 1,
    ensures
        ((x + 1) % m) % m == (x + 1) % m,
        ((x + m - 1) % m) % m == (x - 1) % m,
{
    vstd::arithmetic::div_mod::lemma_mod_twice(x + 1, m);
    vstd::arithmetic::div_mod::lemma_mod_twice(x + m - 1, m);
    lemma_mod_add_multiples_vanish(x - 1, m);
}

} // verus!

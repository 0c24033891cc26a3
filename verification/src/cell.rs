//! One grid cell's physical state and the per-tick update engine.
//!
//! Every update rule reads only a frozen neighborhood snapshot taken at the
//! start of the tick, so a whole-grid step has Jacobi semantics: no cell
//! sees another cell's in-progress update.
//!
//! Transfers of water and pressure are flux limited: a cell never donates
//! more of a quantity than it holds, nor receives more than the source can
//! supply. On top of the limiter, every quantity saturates at a generous
//! machine cap so that all arithmetic provably fits in 64 bits.

use vstd::prelude::*;
use vstd::math::{max, min};
use crate::biome::{tag_cell, tag_cell_spec, BiomeTags};
use crate::fixed::{clamp, clamp_spec, fp_mul, fp_mul_spec, lemma_fp_mul_mag, lemma_fp_mul_odd,
    lemma_tdiv_mono, lemma_tdiv_odd, tdiv, UNIT};
use crate::vector::Vec2;
use crate::world::WorldDescription;

verus! {

/// Saturation cap for standing water and air pressure.
pub const QMAX: i64 = 100_000_000_000;

/// Saturation cap for the magnitude of each wind component.
pub const WIND_MAX: i64 = 100_000_000_000;

/// Saturation cap for the magnitude of the heat accumulator.
pub const HEAT_MAX: i64 = 100_000_000_000;

/// The largest accepted time step: four whole units of time.
pub const DELTA_MAX: i64 = 4_000_000;

/// The largest accepted magnitude of one external edit delta.
pub const EDIT_MAX: i64 = 100_000_000_000;

/// How strongly wind divergence feeds air pressure.
pub const AIR_PROPAGATION_FACTOR: i64 = 500_000;

/// How strongly total height weighs into the pressure potential.
pub const GRAVITY_FACTOR: i64 = 500_000;

/// First-order damping rate of the wind relaxation.
pub const WIND_PROPAGATION_FACTOR: i64 = 250_000;

/// Scale of the water flow accumulated per tick.
pub const WATER_PROPAGATION_FACTOR: i64 = 1_000_000;

/// How strongly wind differences bias water transport.
pub const WIND_FACTOR: i64 = 100_000;

/// Scale of the heat diffusion per tick.
pub const HEAT_PROPAGATION_FACTOR: i64 = 1_000_000;

/// How strongly total height weighs into the heat potential.
pub const HEAT_GRAVITY_FACTOR: i64 = 200_000;

/// The fixed sea level subtracted when seeding water from the water-level
/// field.
pub const SEA_LEVEL_OFFSET: i64 = 100_000;

/// The physical quantities carried by one grid cell.
#[derive(Clone, Copy, Debug, PartialEq, Eq, Structural)]
pub struct CellProperties {
    pub height: i64,
    pub gradient: Vec2,
    pub air_pressure: i64,
    pub wind: Vec2,
    pub water: i64,
    pub heat: i64,
    pub resources: i64,
}

/// A snapshot of five cells' properties taken at the start of a tick.
#[derive(Clone, Copy, Debug, PartialEq, Eq, Structural)]
pub struct Neighborhood {
    pub up: CellProperties,
    pub down: CellProperties,
    pub left: CellProperties,
    pub right: CellProperties,
    pub me: CellProperties,
}

/// Terrain plus standing water: the potential compared across neighbors to
/// decide flow direction.
pub open spec fn total_height_spec(p: CellProperties) -> int {
    p.height + p.water
}

/// The slope estimated from the neighborhood: half the central difference
/// of the neighbor heights, truncated toward zero.
pub open spec fn neighborhood_gradient_spec(nh: Neighborhood) -> Vec2 {
    Vec2 {
        x: tdiv(nh.right.height - nh.left.height, 2) as i64,
        y: tdiv(nh.up.height - nh.down.height, 2) as i64,
    }
}

/// Air pressure accumulates the net wind divergence of the neighborhood,
/// then saturates into `[0, QMAX]`.
pub open spec fn update_air_pressure_spec(delta: int, nh: Neighborhood) -> int {
    let divergence = nh.down.wind.y - nh.up.wind.y + nh.left.wind.x - nh.right.wind.x;
    let change = fp_mul_spec(fp_mul_spec(delta, AIR_PROPAGATION_FACTOR as int), divergence);
    clamp_spec(nh.me.air_pressure + change, 0, QMAX as int)
}

/// The directional potential that drives wind: gravity-weighted total
/// height plus air pressure.
pub open spec fn pressure_potential_spec(p: CellProperties) -> int {
    fp_mul_spec(total_height_spec(p), GRAVITY_FACTOR as int) + p.air_pressure
}

/// The flux-limited pressure transfer from `close` toward `me`: positive
/// when `close` sits at the higher potential, capped by the donor's stock.
pub open spec fn air_pressure_diff_spec(me: CellProperties, close: CellProperties) -> int {
    let pm = pressure_potential_spec(me);
    let pc = pressure_potential_spec(close);
    if pc > pm {
        min(close.air_pressure as int, max(0, pc - pm))
    } else {
        -min(me.air_pressure as int, max(0, pm - pc))
    }
}

/// Wind relaxes toward the potential differences of the four directions
/// with first-order damping, then saturates componentwise.
pub open spec fn update_wind_spec(delta: int, nh: Neighborhood) -> Vec2 {
    let diff_up = air_pressure_diff_spec(nh.me, nh.up);
    let diff_down = air_pressure_diff_spec(nh.me, nh.down);
    let diff_left = air_pressure_diff_spec(nh.me, nh.left);
    let diff_right = air_pressure_diff_spec(nh.me, nh.right);
    let sc = fp_mul_spec(delta, WIND_PROPAGATION_FACTOR as int);
    Vec2 {
        x: clamp_spec(nh.me.wind.x + fp_mul_spec(sc, diff_left - diff_right - nh.me.wind.x),
            -WIND_MAX as int, WIND_MAX as int) as i64,
        y: clamp_spec(nh.me.wind.y + fp_mul_spec(sc, diff_down - diff_up - nh.me.wind.y),
            -WIND_MAX as int, WIND_MAX as int) as i64,
    }
}

/// The flux-limited water transfer from `close` toward `me` under the
/// wind-augmented total-height potential: positive flow is capped by the
/// neighbor's stock, negative flow by this cell's own stock.
pub open spec fn water_diff_spec(me: CellProperties, close: CellProperties, wind: int) -> int {
    let wt = fp_mul_spec(WIND_FACTOR as int, wind);
    if total_height_spec(close) + wt > total_height_spec(me) {
        min(close.water as int, max(0, total_height_spec(close) + wt - total_height_spec(me)))
    } else {
        -min(me.water as int, max(0, total_height_spec(me) - wt - total_height_spec(close)))
    }
}

/// Water accumulates the four directional flows, scaled by the time step,
/// then saturates into `[0, QMAX]`.
pub open spec fn update_water_spec(delta: int, nh: Neighborhood) -> int {
    let diff_up = water_diff_spec(nh.me, nh.up, -nh.up.wind.y - nh.me.wind.y);
    let diff_down = water_diff_spec(nh.me, nh.down, nh.down.wind.y + nh.me.wind.y);
    let diff_left = water_diff_spec(nh.me, nh.left, nh.left.wind.x + nh.me.wind.x);
    let diff_right = water_diff_spec(nh.me, nh.right, -nh.right.wind.x - nh.me.wind.x);
    let flow = diff_up + diff_down + diff_left + diff_right;
    let change = fp_mul_spec(fp_mul_spec(delta, WATER_PROPAGATION_FACTOR as int), flow);
    clamp_spec(nh.me.water + change, 0, QMAX as int)
}

/// The heat potential of one cell: its heat plus gravity-weighted total
/// height.
pub open spec fn heat_potential_spec(p: CellProperties) -> int {
    p.heat + fp_mul_spec(total_height_spec(p), HEAT_GRAVITY_FACTOR as int)
}

/// Heat diffuses toward the mean of the four neighbor potentials, relaxed
/// by four times the local potential, then saturates.
pub open spec fn update_heat_spec(delta: int, nh: Neighborhood) -> int {
    let sum = heat_potential_spec(nh.down) + heat_potential_spec(nh.up) + heat_potential_spec(
        nh.left) + heat_potential_spec(nh.right);
    let relaxed = sum - 4 * heat_potential_spec(nh.me);
    let change = fp_mul_spec(fp_mul_spec(delta, HEAT_PROPAGATION_FACTOR as int), relaxed);
    clamp_spec(nh.me.heat + change, -HEAT_MAX as int, HEAT_MAX as int)
}

/// One whole-cell update: height is untouched by the physics, the gradient
/// is recomputed, and the four coupled fields advance one step.
pub open spec fn step_spec(current: CellProperties, delta: int, nh: Neighborhood) -> CellProperties {
    CellProperties {
        height: current.height,
        gradient: neighborhood_gradient_spec(nh),
        air_pressure: update_air_pressure_spec(delta, nh) as i64,
        wind: update_wind_spec(delta, nh),
        water: update_water_spec(delta, nh) as i64,
        heat: update_heat_spec(delta, nh) as i64,
        resources: 0,
    }
}

/// An external edit: each delta is added, then the invariants are
/// re-established by clamping.
pub open spec fn alter_properties_spec(
    p: CellProperties,
    d_water: int,
    d_air_pressure: int,
    d_height: int,
) -> CellProperties {
    CellProperties {
        water: clamp_spec(p.water + d_water, 0, QMAX as int) as i64,
        air_pressure: clamp_spec(p.air_pressure + d_air_pressure, 0, QMAX as int) as i64,
        height: clamp_spec(p.height + d_height, -UNIT as int, UNIT as int) as i64,
        gradient: p.gradient,
        wind: p.wind,
        heat: p.heat,
        resources: p.resources,
    }
}

impl CellProperties {
    /// The state invariant: water and pressure are nonnegative, height
    /// stays within one unit, every quantity respects its saturation cap,
    /// and the placeholder resources field stays zero.
    pub open spec fn valid(self) -> bool {
        &&& -UNIT <= self.height <= UNIT
        &&& 0 <= self.water <= QMAX
        &&& 0 <= self.air_pressure <= QMAX
        &&& -WIND_MAX <= self.wind.x <= WIND_MAX
        &&& -WIND_MAX <= self.wind.y <= WIND_MAX
        &&& -HEAT_MAX <= self.heat <= HEAT_MAX
        &&& -UNIT <= self.gradient.x <= UNIT
        &&& -UNIT <= self.gradient.y <= UNIT
        &&& self.resources == 0
    }

    /// The seed state of the cell at `(x, y)`: height from the heightmap,
    /// water as the excess of the water level over sea level and terrain,
    /// unit pressure, still air, heat primed with the raw height sample.
    pub open spec fn new_spec(description: WorldDescription, x: int, y: int) -> CellProperties {
        CellProperties {
            height: clamp_spec(description.heightmap.noise_at(x, y) as int, -UNIT as int,
                UNIT as int) as i64,
            gradient: Vec2 { x: 0, y: 0 },
            air_pressure: UNIT,
            wind: Vec2 { x: 0, y: 0 },
            water: max(0, description.waterlevel.noise_at(x, y) - SEA_LEVEL_OFFSET
                - description.heightmap.noise_at(x, y)) as i64,
            heat: description.heightmap.noise_at(x, y),
            resources: 0,
        }
    }

    /// Seeds the cell state at `(x, y)` from the world description.
    pub fn new(description: &WorldDescription, x: u32, y: u32) -> (p: CellProperties)
        requires
            description.wf(),
        ensures
            p == CellProperties::new_spec(*description, x as int, y as int),
            p.valid(),
    {
        let h = description.heightmap.get(x, y);
        let wl = description.waterlevel.get(x, y);
        let excess = wl - SEA_LEVEL_OFFSET - h;
        let water = if excess > 0 {
            excess
        } else {
            0
        };
        CellProperties {
            height: clamp(h, -UNIT, UNIT),
            gradient: Vec2 { x: 0, y: 0 },
            air_pressure: UNIT,
            wind: Vec2 { x: 0, y: 0 },
            water,
            heat: h,
            resources: 0,
        }
    }

    /// Terrain height plus standing water depth.
    pub fn total_height(&self) -> (r: i64)
        requires
            self.valid(),
        ensures
            r == total_height_spec(*self),
    {
        self.height + self.water
    }

    /// Advances this cell's properties by one time step from the
    /// neighborhood snapshot.
    pub fn step(current: &CellProperties, delta: i64, neighborhood: &Neighborhood) -> (r:
        CellProperties)
        requires
            current.valid(),
            neighborhood.valid(),
            0 <= delta <= DELTA_MAX,
        ensures
            r == step_spec(*current, delta as int, *neighborhood),
            r.valid(),
    {
        CellProperties {
            height: current.height,
            gradient: neighborhood.get_gradient(),
            air_pressure: update_air_pressure(delta, neighborhood),
            wind: update_wind(delta, neighborhood),
            water: update_water(delta, neighborhood),
            heat: update_heat(delta, neighborhood),
            resources: update_resources(delta, neighborhood),
        }
    }

    /// Applies one external edit and re-clamps to the invariants: water
    /// and pressure at zero, height at one unit, all at their caps.
    pub fn alter_properties(&self, d_water: i64, d_air_pressure: i64, d_height: i64) -> (r:
        CellProperties)
        requires
            self.valid(),
            -EDIT_MAX <= d_water <= EDIT_MAX,
            -EDIT_MAX <= d_air_pressure <= EDIT_MAX,
            -EDIT_MAX <= d_height <= EDIT_MAX,
        ensures
            r == alter_properties_spec(*self, d_water as int, d_air_pressure as int,
                d_height as int),
            r.valid(),
    {
        CellProperties {
            water: clamp(self.water + d_water, 0, QMAX),
            air_pressure: clamp(self.air_pressure + d_air_pressure, 0, QMAX),
            height: clamp(self.height + d_height, -UNIT, UNIT),
            gradient: self.gradient,
            wind: self.wind,
            heat: self.heat,
            resources: self.resources,
        }
    }
}

impl Neighborhood {
    /// All five snapshot entries satisfy the state invariant.
    pub open spec fn valid(self) -> bool {
        &&& self.up.valid()
        &&& self.down.valid()
        &&& self.left.valid()
        &&& self.right.valid()
        &&& self.me.valid()
    }

    /// The slope at the center: half the central difference of the
    /// neighbor heights.
    pub fn get_gradient(&self) -> (g: Vec2)
        requires
            self.valid(),
        ensures
            g == neighborhood_gradient_spec(*self),
            -UNIT <= g.x <= UNIT,
            -UNIT <= g.y <= UNIT,
    {
        let dx = self.right.height - self.left.height;
        let dy = self.up.height - self.down.height;
        Vec2 { x: dx / 2, y: dy / 2 }
    }
}

/// Computes the saturated pressure update from the neighborhood's wind
/// divergence.
pub fn update_air_pressure(delta: i64, neighborhood: &Neighborhood) -> (r: i64)
    requires
        neighborhood.valid(),
        0 <= delta <= DELTA_MAX,
    ensures
        r == update_air_pressure_spec(delta as int, *neighborhood),
        0 <= r <= QMAX,
{
    let divergence = neighborhood.down.wind.y - neighborhood.up.wind.y + neighborhood.left.wind.x
        - neighborhood.right.wind.x;
    proof {
        lemma_fp_mul_mag(delta as int, AIR_PROPAGATION_FACTOR as int, DELTA_MAX as int,
            AIR_PROPAGATION_FACTOR as int);
        assert((DELTA_MAX as int) * (AIR_PROPAGATION_FACTOR as int) / (UNIT as int)
            == 2_000_000int) by (nonlinear_arith);
        lemma_fp_mul_mag(fp_mul_spec(delta as int, AIR_PROPAGATION_FACTOR as int),
            divergence as int, 2_000_000int, 400_000_000_000int);
        assert(2_000_000int * 400_000_000_000int / (UNIT as int) == 800_000_000_000int)
            by (nonlinear_arith);
    }
    let scaled = fp_mul(delta, AIR_PROPAGATION_FACTOR);
    let change = fp_mul(scaled, divergence);
    clamp(neighborhood.me.air_pressure + change, 0, QMAX)
}

/// Computes the flux-limited pressure transfer from `close` toward `me`.
pub fn air_pressure_diff(me: &CellProperties, close: &CellProperties) -> (r: i64)
    requires
        me.valid(),
        close.valid(),
    ensures
        r == air_pressure_diff_spec(*me, *close),
        -me.air_pressure <= r <= close.air_pressure,
{
    proof {
        lemma_potential_mag(*me);
        lemma_potential_mag(*close);
    }
    let pot_me = pressure_potential(me);
    let pot_close = pressure_potential(close);
    if pot_close > pot_me {
        let diff = pot_close - pot_me;
        if close.air_pressure < diff {
            close.air_pressure
        } else {
            diff
        }
    } else {
        let diff = pot_me - pot_close;
        let capped = if me.air_pressure < diff {
            me.air_pressure
        } else {
            diff
        };
        -capped
    }
}

/// Computes the gravity-weighted pressure potential of one cell.
fn pressure_potential(p: &CellProperties) -> (r: i64)
    requires
        p.valid(),
    ensures
        r == pressure_potential_spec(*p),
{
    proof {
        lemma_potential_mag(*p);
    }
    fp_mul(p.height + p.water, GRAVITY_FACTOR) + p.air_pressure
}

/// The pressure potential of a valid cell is bounded by `2 * QMAX`.
proof fn lemma_potential_mag(p: CellProperties)
    requires
        p.valid(),
    ensures
        -UNIT <= fp_mul_spec(total_height_spec(p), GRAVITY_FACTOR as int) <= QMAX,
        -UNIT <= pressure_potential_spec(p) <= 2 * QMAX,
        (total_height_spec(p)) * (GRAVITY_FACTOR as int) <= i64::MAX,
        (total_height_spec(p)) * (GRAVITY_FACTOR as int) >= i64::MIN,
{
    lemma_fp_mul_mag(total_height_spec(p), GRAVITY_FACTOR as int, QMAX + UNIT,
        GRAVITY_FACTOR as int);
    assert(((QMAX + UNIT) as int) * (GRAVITY_FACTOR as int) / (UNIT as int)
        <= QMAX as int) by (nonlinear_arith);
    assert(((QMAX + UNIT) as int) * (GRAVITY_FACTOR as int) <= i64::MAX) by (nonlinear_arith);
}

/// Computes the saturated wind update from the four directional pressure
/// transfers.
pub fn update_wind(delta: i64, neighborhood: &Neighborhood) -> (r: Vec2)
    requires
        neighborhood.valid(),
        0 <= delta <= DELTA_MAX,
    ensures
        r == update_wind_spec(delta as int, *neighborhood),
        -WIND_MAX <= r.x <= WIND_MAX,
        -WIND_MAX <= r.y <= WIND_MAX,
{
    let diff_up = air_pressure_diff(&neighborhood.me, &neighborhood.up);
    let diff_down = air_pressure_diff(&neighborhood.me, &neighborhood.down);
    let diff_left = air_pressure_diff(&neighborhood.me, &neighborhood.left);
    let diff_right = air_pressure_diff(&neighborhood.me, &neighborhood.right);
    proof {
        lemma_fp_mul_mag(delta as int, WIND_PROPAGATION_FACTOR as int, DELTA_MAX as int,
            WIND_PROPAGATION_FACTOR as int);
        assert((DELTA_MAX as int) * (WIND_PROPAGATION_FACTOR as int) / (UNIT as int)
            == 1_000_000int) by (nonlinear_arith);
    }
    let sc = fp_mul(delta, WIND_PROPAGATION_FACTOR);
    let target_x = diff_left - diff_right - neighborhood.me.wind.x;
    let target_y = diff_down - diff_up - neighborhood.me.wind.y;
    proof {
        lemma_fp_mul_mag(sc as int, target_x as int, 1_000_000int, 300_000_000_000int);
        lemma_fp_mul_mag(sc as int, target_y as int, 1_000_000int, 300_000_000_000int);
        assert(1_000_000int * 300_000_000_000int / (UNIT as int) == 300_000_000_000int)
            by (nonlinear_arith);
    }
    Vec2 {
        x: clamp(neighborhood.me.wind.x + fp_mul(sc, target_x), -WIND_MAX, WIND_MAX),
        y: clamp(neighborhood.me.wind.y + fp_mul(sc, target_y), -WIND_MAX, WIND_MAX),
    }
}

/// Computes the flux-limited, wind-augmented water transfer from `close`
/// toward `me`.
pub fn water_diff(me: &CellProperties, close: &CellProperties, wind: i64) -> (r: i64)
    requires
        me.valid(),
        close.valid(),
        -2 * WIND_MAX <= wind <= 2 * WIND_MAX,
    ensures
        r == water_diff_spec(*me, *close, wind as int),
        -me.water <= r <= close.water,
{
    proof {
        lemma_fp_mul_mag(WIND_FACTOR as int, wind as int, WIND_FACTOR as int, 2 * WIND_MAX as int);
        assert((WIND_FACTOR as int) * (2 * WIND_MAX as int) / (UNIT as int)
            == 20_000_000_000int) by (nonlinear_arith);
    }
    let wind_term = fp_mul(WIND_FACTOR, wind);
    let th_me = me.height + me.water;
    let th_close = close.height + close.water;
    if th_close + wind_term > th_me {
        let diff = th_close + wind_term - th_me;
        if close.water < diff {
            close.water
        } else {
            diff
        }
    } else {
        let diff = th_me - wind_term - th_close;
        let capped = if me.water < diff {
            me.water
        } else {
            diff
        };
        -capped
    }
}

/// Computes the saturated water update from the four directional flows.
pub fn update_water(delta: i64, neighborhood: &Neighborhood) -> (r: i64)
    requires
        neighborhood.valid(),
        0 <= delta <= DELTA_MAX,
    ensures
        r == update_water_spec(delta as int, *neighborhood),
        0 <= r <= QMAX,
{
    let diff_up = water_diff(&neighborhood.me, &neighborhood.up, -neighborhood.up.wind.y
        - neighborhood.me.wind.y);
    let diff_down = water_diff(&neighborhood.me, &neighborhood.down, neighborhood.down.wind.y
        + neighborhood.me.wind.y);
    let diff_left = water_diff(&neighborhood.me, &neighborhood.left, neighborhood.left.wind.x
        + neighborhood.me.wind.x);
    let diff_right = water_diff(&neighborhood.me, &neighborhood.right, -neighborhood.right.wind.x
        - neighborhood.me.wind.x);
    let flow = diff_up + diff_down + diff_left + diff_right;
    proof {
        lemma_fp_mul_mag(delta as int, WATER_PROPAGATION_FACTOR as int, DELTA_MAX as int,
            WATER_PROPAGATION_FACTOR as int);
        assert((DELTA_MAX as int) * (WATER_PROPAGATION_FACTOR as int) / (UNIT as int)
            == 4_000_000int) by (nonlinear_arith);
        lemma_fp_mul_mag(fp_mul_spec(delta as int, WATER_PROPAGATION_FACTOR as int), flow as int,
            4_000_000int, 400_000_000_000int);
        assert(4_000_000int * 400_000_000_000int / (UNIT as int) == 1_600_000_000_000int)
            by (nonlinear_arith);
    }
    let scaled = fp_mul(delta, WATER_PROPAGATION_FACTOR);
    let change = fp_mul(scaled, flow);
    clamp(neighborhood.me.water + change, 0, QMAX)
}

/// The heat potential of a valid cell is bounded.
proof fn lemma_heat_potential_mag(p: CellProperties)
    requires
        p.valid(),
    ensures
        -121_000_000_000 <= heat_potential_spec(p) <= 121_000_000_000,
        (total_height_spec(p)) * (HEAT_GRAVITY_FACTOR as int) <= i64::MAX,
        (total_height_spec(p)) * (HEAT_GRAVITY_FACTOR as int) >= i64::MIN,
{
    lemma_fp_mul_mag(total_height_spec(p), HEAT_GRAVITY_FACTOR as int, QMAX + UNIT,
        HEAT_GRAVITY_FACTOR as int);
    assert(((QMAX + UNIT) as int) * (HEAT_GRAVITY_FACTOR as int) / (UNIT as int)
        <= 21_000_000_000int) by (nonlinear_arith);
    assert(((QMAX + UNIT) as int) * (HEAT_GRAVITY_FACTOR as int) <= i64::MAX) by (nonlinear_arith);
}

/// Computes one cell's heat potential.
fn heat_potential(p: &CellProperties) -> (r: i64)
    requires
        p.valid(),
    ensures
        r == heat_potential_spec(*p),
        -121_000_000_000 <= r <= 121_000_000_000,
{
    proof {
        lemma_heat_potential_mag(*p);
    }
    p.heat + fp_mul(p.height + p.water, HEAT_GRAVITY_FACTOR)
}

/// Computes the saturated heat update: diffusion toward the neighbor mean,
/// relaxed by the local potential.
pub fn update_heat(delta: i64, neighborhood: &Neighborhood) -> (r: i64)
    requires
        neighborhood.valid(),
        0 <= delta <= DELTA_MAX,
    ensures
        r == update_heat_spec(delta as int, *neighborhood),
        -HEAT_MAX <= r <= HEAT_MAX,
{
    let sum = heat_potential(&neighborhood.down) + heat_potential(&neighborhood.up)
        + heat_potential(&neighborhood.left) + heat_potential(&neighborhood.right);
    let relaxed = sum - 4 * heat_potential(&neighborhood.me);
    proof {
        lemma_fp_mul_mag(delta as int, HEAT_PROPAGATION_FACTOR as int, DELTA_MAX as int,
            HEAT_PROPAGATION_FACTOR as int);
        assert((DELTA_MAX as int) * (HEAT_PROPAGATION_FACTOR as int) / (UNIT as int)
            == 4_000_000int) by (nonlinear_arith);
        lemma_fp_mul_mag(fp_mul_spec(delta as int, HEAT_PROPAGATION_FACTOR as int),
            relaxed as int, 4_000_000int, 968_000_000_000int);
        assert(4_000_000int * 968_000_000_000int / (UNIT as int) == 3_872_000_000_000int)
            by (nonlinear_arith);
    }
    let scaled = fp_mul(delta, HEAT_PROPAGATION_FACTOR);
    let change = fp_mul(scaled, relaxed);
    clamp(neighborhood.me.heat + change, -HEAT_MAX, HEAT_MAX)
}

/// The flux limiter in one direction: a water transfer never draws more
/// than this cell holds, nor delivers more than the neighbor holds.
pub proof fn lemma_water_diff_limited(me: CellProperties, close: CellProperties, wind: int)
    requires
        0 <= me.water,
        0 <= close.water,
    ensures
        -me.water <= water_diff_spec(me, close, wind) <= close.water,
{
}

/// Water transfers are antisymmetric: what one cell of a pair counts as
/// inflow, the other counts as equal outflow, wind bias included. Summed
/// over the grid, the directional flows therefore cancel pairwise.
pub proof fn lemma_water_diff_antisymmetric(a: CellProperties, b: CellProperties, wind: int)
    requires
        0 <= a.water,
        0 <= b.water,
    ensures
        water_diff_spec(a, b, wind) == -water_diff_spec(b, a, -wind),
{
    lemma_fp_mul_odd(WIND_FACTOR as int, wind);
}

/// For a time step small enough that four full outflows cannot overdraw a
/// cell, the saturation floor of the water update never engages: the next
/// water level is exactly the old level plus the scaled net flow, so the
/// update conjures no water from nothing.
pub proof fn lemma_no_water_from_nothing(delta: int, nh: Neighborhood)
    requires
        nh.valid(),
        0 <= delta,
        4 * fp_mul_spec(delta, WATER_PROPAGATION_FACTOR as int) <= UNIT,
    ensures
        ({
            let flow = water_diff_spec(nh.me, nh.up, -nh.up.wind.y - nh.me.wind.y)
                + water_diff_spec(nh.me, nh.down, nh.down.wind.y + nh.me.wind.y)
                + water_diff_spec(nh.me, nh.left, nh.left.wind.x + nh.me.wind.x)
                + water_diff_spec(nh.me, nh.right, -nh.right.wind.x - nh.me.wind.x);
            let change = fp_mul_spec(fp_mul_spec(delta, WATER_PROPAGATION_FACTOR as int), flow);
            nh.me.water + change >= 0 && update_water_spec(delta, nh) == min(QMAX as int,
                nh.me.water + change)
        }),
{
    let w = nh.me.water as int;
    let sc = fp_mul_spec(delta, WATER_PROPAGATION_FACTOR as int);
    lemma_fp_mul_mag(delta as int, WATER_PROPAGATION_FACTOR as int, delta, UNIT as int);
    assert(delta * (UNIT as int) / (UNIT as int) == delta) by (nonlinear_arith)
        requires
            delta >= 0,
    ;
    assert(sc >= 0);
    lemma_water_diff_limited(nh.me, nh.up, -nh.up.wind.y - nh.me.wind.y);
    lemma_water_diff_limited(nh.me, nh.down, nh.down.wind.y + nh.me.wind.y);
    lemma_water_diff_limited(nh.me, nh.left, nh.left.wind.x + nh.me.wind.x);
    lemma_water_diff_limited(nh.me, nh.right, -nh.right.wind.x - nh.me.wind.x);
    let flow = water_diff_spec(nh.me, nh.up, -nh.up.wind.y - nh.me.wind.y) + water_diff_spec(
        nh.me, nh.down, nh.down.wind.y + nh.me.wind.y) + water_diff_spec(nh.me, nh.left,
        nh.left.wind.x + nh.me.wind.x) + water_diff_spec(nh.me, nh.right, -nh.right.wind.x
        - nh.me.wind.x);
    assert(flow >= -4 * w);
    assert(sc * flow >= sc * (-4 * w)) by (nonlinear_arith)
        requires
            sc >= 0,
            flow >= -4 * w,
    ;
    assert(sc * (-4 * w) == -(4 * sc * w)) by (nonlinear_arith);
    assert(4 * sc * w <= (UNIT as int) * w) by (nonlinear_arith)
        requires
            4 * sc <= UNIT as int,
            w >= 0,
            sc >= 0,
    ;
    lemma_tdiv_mono(-(4 * sc * w), sc * flow, UNIT as int);
    lemma_tdiv_odd(4 * sc * w, UNIT as int);
    lemma_tdiv_mono(4 * sc * w, (UNIT as int) * w, UNIT as int);
    assert((UNIT as int) * w / (UNIT as int) == w) by (nonlinear_arith)
        requires
            w >= 0,
    ;
    assert(tdiv(4 * sc * w, UNIT as int) <= w);
    assert(fp_mul_spec(sc, flow) >= -w);
}

/// The resources placeholder: deliberately constant zero.
pub fn update_resources(delta: i64, neighborhood: &Neighborhood) -> (r: i64)
    ensures
        r == 0,
{
    0
}

/// One grid cell: its physical properties, the biome tags derived from
/// them, and its immutable position.
#[derive(Clone, Copy, Debug, PartialEq, Eq, Structural)]
pub struct Cell {
    pub properties: CellProperties,
    pub biome_tags: BiomeTags,
    pub x: u32,
    pub y: u32,
}

/// One whole-cell tick: the physics step followed by retagging from the
/// new state; position is kept.
pub open spec fn cell_update_spec(c: Cell, delta: int, nh: Neighborhood) -> Cell {
    let p = step_spec(c.properties, delta, nh);
    Cell { properties: p, biome_tags: tag_cell_spec(p), x: c.x, y: c.y }
}

impl Cell {
    /// Valid properties whose stored tags match the current state.
    pub open spec fn wf(self) -> bool {
        &&& self.properties.valid()
        &&& self.biome_tags == tag_cell_spec(self.properties)
    }

    /// Builds the cell at `(x, y)` from the world description and tags it.
    pub fn new(description: &WorldDescription, x: u32, y: u32) -> (c: Cell)
        requires
            description.wf(),
        ensures
            c.properties == CellProperties::new_spec(*description, x as int, y as int),
            c.x == x,
            c.y == y,
            c.wf(),
    {
        let properties = CellProperties::new(description, x, y);
        Cell { properties, biome_tags: tag_cell(&properties), x, y }
    }

    /// Advances the cell by one tick against its neighborhood snapshot.
    pub fn update(&self, delta: i64, neighborhood: &Neighborhood) -> (c: Cell)
        requires
            self.properties.valid(),
            neighborhood.valid(),
            0 <= delta <= DELTA_MAX,
        ensures
            c == cell_update_spec(*self, delta as int, *neighborhood),
            c.wf(),
    {
        let new_props = CellProperties::step(&self.properties, delta, neighborhood);
        Cell { properties: new_props, biome_tags: tag_cell(&new_props), x: self.x, y: self.y }
    }
}

} // verus!

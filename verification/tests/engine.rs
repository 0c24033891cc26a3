use terrasim::cell::{
    air_pressure_diff, update_air_pressure, update_heat, update_resources, update_water,
    update_wind, water_diff, CellProperties, Neighborhood,
};
use terrasim::fixed::UNIT;
use terrasim::vector::Vec2;

fn still(height: i64, water: i64, air_pressure: i64, heat: i64) -> CellProperties {
    CellProperties {
        height,
        gradient: Vec2 { x: 0, y: 0 },
        air_pressure,
        wind: Vec2 { x: 0, y: 0 },
        water,
        heat,
        resources: 0,
    }
}

fn uniform(p: CellProperties) -> Neighborhood {
    Neighborhood { up: p, down: p, left: p, right: p, me: p }
}

#[test]
fn pressure_accumulates_wind_divergence() {
    let base = still(0, 0, UNIT, 0);
    let mut nh = uniform(base);
    nh.down.wind = Vec2 { x: 0, y: 200_000 };
    nh.up.wind = Vec2 { x: 0, y: -100_000 };
    nh.left.wind = Vec2 { x: 50_000, y: 0 };
    nh.right.wind = Vec2 { x: -50_000, y: 0 };
    // divergence 0.4 scaled by the air factor 0.5 over a one-unit step
    assert_eq!(update_air_pressure(UNIT, &nh), UNIT + 200_000);
}

#[test]
fn pressure_in_still_air_is_unchanged() {
    let nh = uniform(still(0, 0, UNIT, 0));
    assert_eq!(update_air_pressure(UNIT, &nh), UNIT);
}

#[test]
fn pressure_transfer_is_flux_limited() {
    let me = still(0, 0, UNIT, 0);
    // a neighbor at double pressure may send at most its own stock
    assert_eq!(air_pressure_diff(&me, &still(0, 0, 2 * UNIT, 0)), UNIT);
    // a small overpressure sends exactly the potential difference
    assert_eq!(air_pressure_diff(&me, &still(0, 0, UNIT + 200_000, 0)), 200_000);
    // a lower-pressure neighbor draws from this cell instead
    assert_eq!(air_pressure_diff(&still(0, 0, 2 * UNIT, 0), &me), -UNIT);
    // total height weighs in at half strength: a neighbor raised by a full
    // unit of terrain pushes half a unit of potential
    assert_eq!(air_pressure_diff(&me, &still(UNIT, 0, UNIT, 0)), 500_000);
}

#[test]
fn wind_relaxes_toward_the_pressure_gradient() {
    let base = still(0, 0, UNIT, 0);
    let mut nh = uniform(base);
    nh.left = still(0, 0, 2 * UNIT, 0);
    let w = update_wind(UNIT, &nh);
    // the left transfer of one unit, damped by a quarter per unit time
    assert_eq!(w, Vec2 { x: 250_000, y: 0 });
}

#[test]
fn wind_damps_toward_zero_without_gradients() {
    let base = still(0, 0, UNIT, 0);
    let mut nh = uniform(base);
    nh.me.wind = Vec2 { x: 400_000, y: -400_000 };
    let w = update_wind(UNIT, &nh);
    // with equal potentials the target is minus the current wind, so a
    // one-unit step at damping 0.25 removes a quarter of it
    assert_eq!(w, Vec2 { x: 300_000, y: -300_000 });
}

#[test]
fn water_transfer_follows_the_potential() {
    let me = still(0, 0, UNIT, 0);
    let close = still(0, 300_000, UNIT, 0);
    // the neighbor's total height stands 0.3 above: it sends all of it
    assert_eq!(water_diff(&me, &close, 0), 300_000);
    // wind toward this cell raises the effective potential, but the
    // transfer is still capped by the neighbor's stock
    assert_eq!(water_diff(&me, &close, UNIT), 300_000);
    // strong wind away from this cell reverses the potential; with no
    // water of its own this cell cannot send anything back
    assert_eq!(water_diff(&me, &close, -4 * UNIT), 0);
    // a neighbor standing lower draws water out of this cell
    assert_eq!(water_diff(&still(0, 400_000, UNIT, 0), &still(-UNIT, 0, UNIT, 0), 0), -400_000);
}

#[test]
fn water_transfers_are_antisymmetric() {
    let a = still(100_000, 250_000, UNIT, 0);
    let b = still(-50_000, 400_000, UNIT, 0);
    for wind in [-2 * UNIT, -700_000, 0, 123_456, UNIT] {
        assert_eq!(water_diff(&a, &b, wind), -water_diff(&b, &a, -wind));
    }
}

#[test]
fn water_update_sums_the_four_flows() {
    let base = still(0, 0, UNIT, 0);
    let mut nh = uniform(base);
    nh.me = still(0, UNIT, UNIT, 0);
    // all four neighbors stand a full unit lower and each drains up to the
    // whole stock; a tenth-unit step exports a tenth of each flow
    assert_eq!(update_water(100_000, &nh), 600_000);
    // a full-unit step drains the cell completely
    assert_eq!(update_water(UNIT, &nh), 0);
}

#[test]
fn heat_diffuses_toward_the_neighbor_mean() {
    let base = still(0, 0, UNIT, 0);
    let mut nh = uniform(base);
    nh.down = still(0, 0, UNIT, UNIT);
    // one neighbor a unit hotter: the whole surplus arrives in a unit step
    assert_eq!(update_heat(UNIT, &nh), UNIT);
    // and a tenth of it in a tenth-unit step
    assert_eq!(update_heat(100_000, &nh), 100_000);
}

#[test]
fn heat_feels_terrain_through_gravity() {
    let base = still(0, 0, UNIT, 0);
    let mut nh = uniform(base);
    nh.up = still(UNIT, 0, UNIT, 0);
    // a neighbor raised a full unit radiates a fifth of a unit of potential
    assert_eq!(update_heat(UNIT, &nh), 200_000);
}

#[test]
fn resources_stay_at_zero() {
    let nh = uniform(still(0, 0, UNIT, 0));
    assert_eq!(update_resources(UNIT, &nh), 0);
}

use terrasim::biome::{classify_tags, BiomeType};
use terrasim::cell::{CellProperties, QMAX};
use terrasim::fixed::UNIT;
use terrasim::perlin::Noise;
use terrasim::vector::Vec2;
use terrasim::world::{World, WorldDescription};

fn flat_description(size: u32, water_spike: Option<(u32, u32, i64)>) -> WorldDescription {
    let n = (size * size) as usize;
    let heightmap = Noise::from_values(size, size, vec![0; n]);
    let heatmap = Noise::from_values(size, size, vec![0; n]);
    let mut wl = vec![0i64; n];
    if let Some((x, y, level)) = water_spike {
        wl[(y * size + x) as usize] = level;
    }
    let waterlevel = Noise::from_values(size, size, wl);
    WorldDescription { heightmap, heatmap, waterlevel }
}

fn check_invariants(w: &World) {
    for c in &w.cells {
        let p = &c.properties;
        assert!(p.water >= 0, "water must stay nonnegative");
        assert!(p.air_pressure >= 0, "pressure must stay nonnegative");
        assert!(p.height >= -UNIT && p.height <= UNIT, "height must stay within a unit");
        assert!(p.resources == 0, "resources stay at their placeholder value");
    }
}

fn total_water(w: &World) -> i64 {
    w.cells.iter().map(|c| c.properties.water).sum()
}

#[test]
fn bootstrap_seeds_water_above_sea_level() {
    // water level 1.1 over height 0 leaves 1.0 of standing water after the
    // fixed 0.1 sea level offset
    let d = flat_description(4, Some((1, 1, 1_100_000)));
    let w = World::from_description(d, 4);
    assert_eq!(w.size(), (4, 4));
    assert_eq!(w.cells.len(), 16);
    let source = &w.cells[(1 * 4 + 1) as usize];
    assert_eq!(source.properties.water, UNIT);
    assert_eq!(source.properties.air_pressure, UNIT);
    assert_eq!(source.properties.wind, Vec2 { x: 0, y: 0 });
    for (i, c) in w.cells.iter().enumerate() {
        if i != 5 {
            assert_eq!(c.properties.water, 0);
        }
        assert_eq!(c.x, (i % 4) as u32);
        assert_eq!(c.y, (i / 4) as u32);
    }
    check_invariants(&w);
}

#[test]
fn one_small_tick_spreads_water_and_conserves_it() {
    let d = flat_description(4, Some((1, 1, 1_100_000)));
    let mut w = World::from_description(d, 4);
    let before = total_water(&w);
    w.update(100_000);
    check_invariants(&w);
    // the source exported a tenth of the height difference to each of its
    // four neighbors
    assert_eq!(w.cells[5].properties.water, 600_000);
    for i in [1usize, 4, 6, 9] {
        assert_eq!(w.cells[i].properties.water, 100_000);
    }
    for i in [0usize, 2, 3, 7, 8, 10, 11, 12, 13, 14, 15] {
        assert_eq!(w.cells[i].properties.water, 0);
    }
    // the source's loss is exactly the sum its neighbors gained
    assert_eq!(total_water(&w), before);
    // pressure is untouched while the air is still
    for c in &w.cells {
        assert_eq!(c.properties.air_pressure, UNIT);
    }
}

#[test]
fn a_full_unit_tick_follows_the_flow_rule() {
    // with a whole-unit step the flow rule drains the source completely:
    // each neighbor receives the full height difference, capped by the
    // source's stock
    let d = flat_description(4, Some((1, 1, 1_100_000)));
    let mut w = World::from_description(d, 4);
    w.update(UNIT);
    check_invariants(&w);
    assert_eq!(w.cells[5].properties.water, 0);
    for i in [1usize, 4, 6, 9] {
        assert_eq!(w.cells[i].properties.water, UNIT);
    }
    // a flooded neighbor has become a lake
    let tags = w.cells[1].biome_tags;
    assert_eq!(classify_tags(tags), BiomeType::Lake);
}

#[test]
fn ticking_keeps_invariants_on_random_worlds() {
    let mut w = World::new_seeded(3, 12, 2024);
    check_invariants(&w);
    for _ in 0..5 {
        w.update(150_000);
        check_invariants(&w);
    }
}

#[test]
fn seeded_worlds_and_their_updates_are_reproducible() {
    let mut a = World::new_seeded(3, 10, 77);
    let mut b = World::new_seeded(3, 10, 77);
    assert_eq!(a.cells, b.cells);
    for _ in 0..3 {
        a.update(150_000);
        b.update(150_000);
    }
    assert_eq!(a.cells, b.cells);
    let c = World::new_seeded(3, 10, 78);
    assert_ne!(a.cells, c.cells);
}

#[test]
fn edits_clamp_water_at_zero_and_height_at_one() {
    let p = CellProperties {
        height: 900_000,
        gradient: Vec2 { x: 0, y: 0 },
        air_pressure: UNIT,
        wind: Vec2 { x: 0, y: 0 },
        water: 200_000,
        heat: 0,
        resources: 0,
    };
    let q = p.alter_properties(-1_000 * UNIT, 0, 5 * UNIT);
    assert_eq!(q.water, 0);
    assert_eq!(q.height, UNIT);
    assert_eq!(q.air_pressure, UNIT);
    let r = p.alter_properties(300_000, -5 * UNIT, -5 * UNIT);
    assert_eq!(r.water, 500_000);
    assert_eq!(r.air_pressure, 0);
    assert_eq!(r.height, -UNIT);
    let s = p.alter_properties(QMAX, 0, 0);
    assert_eq!(s.water, QMAX);
}

#[test]
fn selection_is_a_discretized_disk() {
    let d = flat_description(10, None);
    let w = World::from_description(d, 10);
    let indices = w.select_cells((5, 5), 2);
    assert_eq!(indices, vec![44, 54, 35, 45, 55, 65, 46, 56]);
    // every selected cell lies within the radius of the center
    for idx in indices {
        let x = (idx % 10) as i64;
        let y = (idx / 10) as i64;
        let dx = x - 5;
        let dy = y - 5;
        assert!(dx * dx + dy * dy <= 4);
    }
}

#[test]
fn selection_wraps_toroidally() {
    let d = flat_description(10, None);
    let w = World::from_description(d, 10);
    let indices = w.select_cells((0, 0), 2);
    // the column strip at offset -1 wraps to x = 9, the rows at offset -1
    // wrap to y = 9
    assert_eq!(indices, vec![99, 9, 80, 90, 0, 10, 91, 1]);
}

#[test]
fn zero_radius_selects_nothing() {
    let d = flat_description(4, None);
    let w = World::from_description(d, 4);
    assert_eq!(w.select_cells((2, 2), 0), Vec::<usize>::new());
}

#[test]
fn region_edits_apply_to_every_selected_cell() {
    let d = flat_description(10, None);
    let mut w = World::from_description(d, 10);
    w.alter_region(5, 5, 2, 300_000, 0, -5 * UNIT);
    check_invariants(&w);
    for idx in [44usize, 54, 35, 45, 55, 65, 46, 56] {
        assert_eq!(w.cells[idx].properties.water, 300_000);
        assert_eq!(w.cells[idx].properties.height, -UNIT);
    }
    assert_eq!(w.cells[0].properties.water, 0);
    assert_eq!(w.cells[0].properties.height, 0);
}

#[test]
fn heights_are_untouched_by_ticks() {
    let mut w = World::new_seeded(2, 8, 31);
    let heights: Vec<i64> = w.cells.iter().map(|c| c.properties.height).collect();
    w.update(150_000);
    let after: Vec<i64> = w.cells.iter().map(|c| c.properties.height).collect();
    assert_eq!(heights, after);
}

use terrasim::biome::{classify_tags, tag_cell, tmp_colors, update_biomes, BiomeTags, BiomeType};
use terrasim::cell::{Cell, CellProperties};
use terrasim::fixed::UNIT;
use terrasim::vector::Vec2;

fn props(height: i64, water: i64, gradient: Vec2) -> CellProperties {
    CellProperties {
        height,
        gradient,
        air_pressure: UNIT,
        wind: Vec2 { x: 0, y: 0 },
        water,
        heat: 0,
        resources: 0,
    }
}

fn tags(wet: bool, underwater: bool, elevated: bool, flat: bool, steep: bool) -> BiomeTags {
    BiomeTags { wet, underwater, elevated, flat, steep }
}

#[test]
fn underwater_takes_precedence_over_everything() {
    assert_eq!(classify_tags(tags(true, true, true, true, true)), BiomeType::Lake);
}

#[test]
fn flat_lowland_is_forest() {
    assert_eq!(classify_tags(tags(false, false, false, true, false)), BiomeType::Forest);
}

#[test]
fn classification_precedence_order() {
    assert_eq!(classify_tags(tags(true, false, true, true, true)), BiomeType::Mountain);
    assert_eq!(classify_tags(tags(true, false, false, true, false)), BiomeType::Wetland);
    assert_eq!(classify_tags(tags(false, false, false, false, true)), BiomeType::Bare);
    assert_eq!(classify_tags(tags(false, false, false, false, false)), BiomeType::Bare);
}

#[test]
fn wetness_thresholds_are_strict() {
    let zero = Vec2 { x: 0, y: 0 };
    let t = tag_cell(&props(0, 1_000, zero));
    assert!(!t.wet);
    let t = tag_cell(&props(0, 1_001, zero));
    assert!(t.wet);
    assert!(!t.underwater);
    let t = tag_cell(&props(0, 50_001, zero));
    assert!(t.underwater);
}

#[test]
fn elevation_threshold_is_strict() {
    let zero = Vec2 { x: 0, y: 0 };
    assert!(!tag_cell(&props(300_000, 0, zero)).elevated);
    assert!(tag_cell(&props(300_001, 0, zero)).elevated);
}

#[test]
fn slope_thresholds_compare_magnitude() {
    let t = tag_cell(&props(0, 0, Vec2 { x: 79_999, y: 0 }));
    assert!(t.flat);
    assert!(!t.steep);
    let t = tag_cell(&props(0, 0, Vec2 { x: 80_000, y: 0 }));
    assert!(!t.flat);
    assert!(!t.steep);
    let t = tag_cell(&props(0, 0, Vec2 { x: 100_001, y: 0 }));
    assert!(!t.flat);
    assert!(t.steep);
    // a diagonal slope of 0.06 each way has magnitude above 0.08
    let t = tag_cell(&props(0, 0, Vec2 { x: 60_000, y: 60_000 }));
    assert!(!t.flat);
}

#[test]
fn biome_colors() {
    assert_eq!(tmp_colors(BiomeType::Mountain), (255, 0, 0));
    assert_eq!(tmp_colors(BiomeType::Lake), (0, 0, 255));
    assert_eq!(tmp_colors(BiomeType::Wetland), (0, 100, 0));
    assert_eq!(tmp_colors(BiomeType::Forest), (0, 255, 0));
    assert_eq!(tmp_colors(BiomeType::Bare), (0, 0, 0));
}

fn cell_with(p: CellProperties, x: u32, y: u32) -> Cell {
    Cell { properties: p, biome_tags: tag_cell(&p), x, y }
}

#[test]
fn water_cycle_moves_evaporation_to_mountains() {
    let zero = Vec2 { x: 0, y: 0 };
    let lake = cell_with(props(0, UNIT, zero), 0, 0);
    let mountain = cell_with(props(500_000, 0, zero), 1, 0);
    let bare = cell_with(props(0, 0, Vec2 { x: 200_000, y: 0 }), 2, 0);
    let out = update_biomes(UNIT, vec![lake, mountain, bare]);
    // evaporation is 0.000005 * delta of a unit: five millionths
    assert_eq!(out[0].properties.water, UNIT - 5);
    assert_eq!(out[1].properties.water, 5);
    assert_eq!(out[2].properties.water, 0);
    assert_eq!(out[0].x, 0);
    assert_eq!(out[1].x, 1);
}

#[test]
fn water_cycle_splits_rain_between_mountains() {
    let zero = Vec2 { x: 0, y: 0 };
    let lake_a = cell_with(props(0, UNIT, zero), 0, 0);
    let lake_b = cell_with(props(0, UNIT, zero), 1, 0);
    let lake_c = cell_with(props(0, UNIT, zero), 2, 0);
    let m1 = cell_with(props(500_000, 0, zero), 3, 0);
    let m2 = cell_with(props(500_000, 0, zero), 4, 0);
    let out = update_biomes(UNIT, vec![lake_a, lake_b, lake_c, m1, m2]);
    // three lakes evaporate five millionths each; each mountain gets half
    // of the vapor, truncated
    assert_eq!(out[3].properties.water, 7);
    assert_eq!(out[4].properties.water, 7);
}

#[test]
fn water_cycle_without_mountains_only_evaporates() {
    let zero = Vec2 { x: 0, y: 0 };
    let lake = cell_with(props(0, UNIT, zero), 0, 0);
    let bare = cell_with(props(0, 0, Vec2 { x: 200_000, y: 0 }), 1, 0);
    let out = update_biomes(UNIT, vec![lake, bare]);
    assert_eq!(out[0].properties.water, UNIT - 5);
    assert_eq!(out[1].properties.water, 0);
}

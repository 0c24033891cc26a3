//! The biome classifier: boolean tags derived from one cell's physical
//! state, and a fixed-precedence mapping from tag combinations to a biome.

use vstd::prelude::*;
use crate::cell::{alter_properties_spec, Cell, CellProperties, DELTA_MAX, EDIT_MAX};
use crate::fixed::{fp_mul, fp_mul_spec, lemma_fp_mul_mag, tdiv, UNIT};
use crate::vector::Vec2;

verus! {

/// The share of a lake cell's water that evaporates per unit time.
pub const EVAPORATION_FACTOR: i64 = 5;

/// Standing water above this depth makes a cell wet.
pub const WET_THRESHOLD: i64 = 1_000;

/// Standing water above this depth puts a cell underwater.
pub const UNDERWATER_THRESHOLD: i64 = 50_000;

/// Height above this level makes a cell elevated.
pub const ELEVATED_THRESHOLD: i64 = 300_000;

/// A squared slope magnitude below this makes a cell flat: the square of
/// a slope of `0.08`.
pub const FLAT_THRESHOLD_SQ: i64 = 6_400_000_000;

/// A squared slope magnitude above this makes a cell steep: the square of
/// a slope of `0.1`.
pub const STEEP_THRESHOLD_SQ: i64 = 10_000_000_000;

/// The coarse terrain categories.
#[derive(Clone, Copy, Debug, PartialEq, Eq, Structural)]
pub enum BiomeType {
    Lake,
    Forest,
    Mountain,
    Wetland,
    Bare,
}

/// The five boolean tags derived from one cell's physical state.
#[derive(Clone, Copy, Debug, PartialEq, Eq, Structural)]
pub struct BiomeTags {
    pub wet: bool,
    pub underwater: bool,
    pub elevated: bool,
    pub flat: bool,
    pub steep: bool,
}

/// The squared Euclidean magnitude of a slope vector.
pub open spec fn slope_sq_spec(g: Vec2) -> int {
    (g.x as int) * (g.x as int) + (g.y as int) * (g.y as int)
}

/// The tags of one cell. Flatness and steepness compare the squared slope
/// magnitude against squared thresholds, which decides `|slope| < 0.08`
/// and `|slope| > 0.1` exactly without a square root.
pub open spec fn tag_cell_spec(p: CellProperties) -> BiomeTags {
    BiomeTags {
        wet: p.water > WET_THRESHOLD,
        underwater: p.water > UNDERWATER_THRESHOLD,
        elevated: p.height > ELEVATED_THRESHOLD,
        flat: slope_sq_spec(p.gradient) < FLAT_THRESHOLD_SQ,
        steep: slope_sq_spec(p.gradient) > STEEP_THRESHOLD_SQ,
    }
}

/// Derives the five boolean tags from one cell's physical state.
pub fn tag_cell(p: &CellProperties) -> (t: BiomeTags)
    requires
        p.valid(),
    ensures
        t == tag_cell_spec(*p),
{
    let slope_sq = p.gradient.mag_sq();
    BiomeTags {
        wet: p.water > WET_THRESHOLD,
        underwater: p.water > UNDERWATER_THRESHOLD,
        elevated: p.height > ELEVATED_THRESHOLD,
        flat: slope_sq < FLAT_THRESHOLD_SQ,
        steep: slope_sq > STEEP_THRESHOLD_SQ,
    }
}

/// The biome of a tag combination, by fixed precedence: underwater wins,
/// then elevated, then wet, then flat ground below the tree line; all
/// else is bare.
pub open spec fn classify_spec(t: BiomeTags) -> BiomeType {
    if t.underwater {
        BiomeType::Lake
    } else if t.elevated {
        BiomeType::Mountain
    } else if t.wet {
        BiomeType::Wetland
    } else if !t.elevated && t.flat {
        BiomeType::Forest
    } else {
        BiomeType::Bare
    }
}

/// Maps a tag combination to its biome with the fixed precedence order:
/// the first matching rule wins.
pub fn classify_tags(tags: BiomeTags) -> (b: BiomeType)
    ensures
        b == classify_spec(tags),
{
    if tags.underwater {
        BiomeType::Lake
    } else if tags.elevated {
        BiomeType::Mountain
    } else if tags.wet {
        BiomeType::Wetland
    } else if !tags.elevated && tags.flat {
        BiomeType::Forest
    } else {
        BiomeType::Bare
    }
}

/// The placeholder display color of each biome.
pub open spec fn tmp_colors_spec(biome: BiomeType) -> (u8, u8, u8) {
    match biome {
        BiomeType::Mountain => (255u8, 0u8, 0u8),
        BiomeType::Lake => (0u8, 0u8, 255u8),
        BiomeType::Wetland => (0u8, 100u8, 0u8),
        BiomeType::Forest => (0u8, 255u8, 0u8),
        BiomeType::Bare => (0u8, 0u8, 0u8),
    }
}

/// Maps a biome to its placeholder display color.
pub fn tmp_colors(biome: BiomeType) -> (rgb: (u8, u8, u8))
    ensures
        rgb == tmp_colors_spec(biome),
{
    match biome {
        BiomeType::Mountain => (255, 0, 0),
        BiomeType::Lake => (0, 0, 255),
        BiomeType::Wetland => (0, 100, 0),
        BiomeType::Forest => (0, 255, 0),
        BiomeType::Bare => (0, 0, 0),
    }
}

/// How many cells of the array are tagged as lakes.
pub open spec fn lake_count(cells: Seq<Cell>) -> int
    decreases cells.len(),
{
    if cells.len() == 0 {
        0
    } else {
        lake_count(cells.drop_last()) + if classify_spec(cells.last().biome_tags)
            == BiomeType::Lake {
            1int
        } else {
            0int
        }
    }
}

/// How many cells of the array are tagged as mountains.
pub open spec fn mountain_count(cells: Seq<Cell>) -> int
    decreases cells.len(),
{
    if cells.len() == 0 {
        0
    } else {
        mountain_count(cells.drop_last()) + if classify_spec(cells.last().biome_tags)
            == BiomeType::Mountain {
            1int
        } else {
            0int
        }
    }
}

/// One cell after the water cycle: lakes lose the evaporated share,
/// mountains receive the rain share, all other cells are untouched.
pub open spec fn water_cycle_cell_spec(c: Cell, evaporated: int, rain: int) -> Cell {
    if classify_spec(c.biome_tags) == BiomeType::Lake {
        Cell {
            properties: alter_properties_spec(c.properties, -evaporated, 0, 0),
            biome_tags: c.biome_tags,
            x: c.x,
            y: c.y,
        }
    } else if classify_spec(c.biome_tags) == BiomeType::Mountain {
        Cell {
            properties: alter_properties_spec(c.properties, rain, 0, 0),
            biome_tags: c.biome_tags,
            x: c.x,
            y: c.y,
        }
    } else {
        c
    }
}

/// The whole cell array after one pass of the water cycle: every lake
/// evaporates `EVAPORATION_FACTOR * delta` water, and the evaporated
/// total is shared equally among the mountains as rain. With no mountain
/// there is no rain.
pub open spec fn update_biomes_spec(cells: Seq<Cell>, delta: int) -> Seq<Cell> {
    let evaporated = fp_mul_spec(EVAPORATION_FACTOR as int, delta);
    let lakes = lake_count(cells);
    let mountains = mountain_count(cells);
    let rain = if mountains > 0 {
        tdiv(lakes * evaporated, mountains)
    } else {
        0
    };
    Seq::new(cells.len(), |i: int| water_cycle_cell_spec(cells[i], evaporated, rain))
}

/// Runs one pass of the water cycle over the cell array: lake cells lose
/// a delta-scaled share of water to vapor, and the collected vapor falls
/// back as equal rain on the mountain cells.
pub fn update_biomes(delta: i64, cells: Vec<Cell>) -> (out: Vec<Cell>)
    requires
        0 <= delta <= DELTA_MAX,
        cells@.len() <= u32::MAX,
        forall|i: int| 0 <= i < cells@.len() ==> (#[trigger] cells@[i]).properties.valid(),
    ensures
        out@ == update_biomes_spec(cells@, delta as int),
        out@.len() == cells@.len(),
        forall|i: int| 0 <= i < out@.len() ==> (#[trigger] out@[i]).properties.valid(),
        forall|i: int| 0 <= i < out@.len() ==> (#[trigger] out@[i]).x == cells@[i].x,
        forall|i: int| 0 <= i < out@.len() ==> (#[trigger] out@[i]).y == cells@[i].y,
{
    proof {
        lemma_fp_mul_mag(EVAPORATION_FACTOR as int, delta as int, EVAPORATION_FACTOR as int,
            DELTA_MAX as int);
        assert((EVAPORATION_FACTOR as int) * (DELTA_MAX as int) / (UNIT as int) == 20int)
            by (nonlinear_arith);
    }
    let evaporated = fp_mul(EVAPORATION_FACTOR, delta);
    let n = cells.len();
    let mut lakes: usize = 0;
    let mut mountains: usize = 0;
    let mut i: usize = 0;
    while i < n
        invariant
            n == cells@.len(),
            i <= n,
            lakes == lake_count(cells@.take(i as int)),
            mountains == mountain_count(cells@.take(i as int)),
            lakes <= i,
            mountains <= i,
        decreases n - i,
    {
        proof {
            assert(cells@.take(i as int + 1).drop_last() =~= cells@.take(i as int));
            assert(cells@.take(i as int + 1).last() == cells@[i as int]);
        }
        match classify_tags(cells[i].biome_tags) {
            BiomeType::Lake => {
                lakes = lakes + 1;
            },
            BiomeType::Mountain => {
                mountains = mountains + 1;
            },
            _ => {},
        }
        i = i + 1;
    }
    proof {
        assert(cells@.take(n as int) =~= cells@);
    }
    proof {
        assert(0 <= (lakes as int) * (evaporated as int) <= 86_000_000_000int)
            by (nonlinear_arith)
            requires
                0 <= lakes as int <= 4_294_967_295int,
                0 <= evaporated as int <= 20,
        ;
    }
    let vapor = (lakes as i64) * evaporated;
    let rain: i64 = if mountains > 0 {
        proof {
            assert(0 <= (vapor as int) / (mountains as int) <= vapor as int) by (nonlinear_arith)
                requires
                    0 <= vapor as int,
                    1 <= mountains as int,
            ;
        }
        vapor / (mountains as i64)
    } else {
        0
    };
    let ghost rain_spec = if mountain_count(cells@) > 0 {
        tdiv(lake_count(cells@) * fp_mul_spec(EVAPORATION_FACTOR as int, delta as int),
            mountain_count(cells@))
    } else {
        0int
    };
    proof {
        assert(rain == rain_spec);
        assert(0 <= rain <= EDIT_MAX);
    }
    let mut out: Vec<Cell> = Vec::new();
    let mut j: usize = 0;
    while j < n
        invariant
            n == cells@.len(),
            n <= u32::MAX,
            j <= n,
            out@.len() == j,
            0 <= evaporated <= 20,
            evaporated == fp_mul_spec(EVAPORATION_FACTOR as int, delta as int),
            0 <= rain <= EDIT_MAX,
            rain == rain_spec,
            rain_spec == (if mountain_count(cells@) > 0 {
                tdiv(lake_count(cells@) * fp_mul_spec(EVAPORATION_FACTOR as int, delta as int),
                    mountain_count(cells@))
            } else {
                0int
            }),
            forall|i: int| 0 <= i < cells@.len() ==> (#[trigger] cells@[i]).properties.valid(),
            forall|i: int|
                0 <= i < j ==> out@[i] == water_cycle_cell_spec(cells@[i], fp_mul_spec(
                    EVAPORATION_FACTOR as int, delta as int), rain_spec),
            forall|i: int| 0 <= i < j ==> (#[trigger] out@[i]).properties.valid(),
            forall|i: int| 0 <= i < j ==> (#[trigger] out@[i]).x == cells@[i].x,
            forall|i: int| 0 <= i < j ==> (#[trigger] out@[i]).y == cells@[i].y,
        decreases n - j,
    {
        let c = cells[j];
        let next = match classify_tags(c.biome_tags) {
            BiomeType::Lake => {
                let p = c.properties.alter_properties(-evaporated, 0, 0);
                Cell { properties: p, biome_tags: c.biome_tags, x: c.x, y: c.y }
            },
            BiomeType::Mountain => {
                let p = c.properties.alter_properties(rain, 0, 0);
                Cell { properties: p, biome_tags: c.biome_tags, x: c.x, y: c.y }
            },
            _ => c,
        };
        out.push(next);
        j = j + 1;
    }
    proof {
        assert(out@ =~= update_biomes_spec(cells@, delta as int));
    }
    out
}

} // verus!


//! The toroidal world grid: bootstrapping from noise fields, the
//! synchronous per-tick update, and localized external edits.

use vstd::prelude::*;
use vstd::arithmetic::div_mod::lemma_mod_add_multiples_vanish;
use vstd::math::max;
use crate::cell::{alter_properties_spec, cell_update_spec, Cell, CellProperties, Neighborhood,
    DELTA_MAX, EDIT_MAX, SEA_LEVEL_OFFSET};
use crate::biome::tag_cell_spec;
use crate::fixed::{clamp_spec, isqrt, lemma_sqrt_floor_bounds, sqrt_floor, UNIT};
use crate::perlin::{noise_at_over, noise_of_seed, lattice_of_seed, Grid, Noise};
use crate::rng::random_seed;

verus! {

/// Mixed into the seed for the water-level field, so the three fields of
/// one world draw from different gradient streams.
pub const WATER_SEED_MIX: u32 = 2_654_435_769;

/// Mixed into the seed for the heat field.
pub const HEAT_SEED_MIX: u32 = 1_779_033_703;

/// The three scalar fields a world is bootstrapped from.
pub struct WorldDescription {
    pub heightmap: Noise,
    pub heatmap: Noise,
    pub waterlevel: Noise,
}

impl WorldDescription {
    /// All three fields are well formed.
    pub open spec fn wf(self) -> bool {
        &&& self.heightmap.wf()
        &&& self.heatmap.wf()
        &&& self.waterlevel.wf()
    }
}

/// The cell seeded at flat index `i` of a fresh `size` by `size` world.
pub open spec fn bootstrap_cell_spec(d: WorldDescription, size: int, i: int) -> Cell {
    let x = i % size;
    let y = i / size;
    let p = CellProperties::new_spec(d, x, y);
    Cell { properties: p, biome_tags: tag_cell_spec(p), x: x as u32, y: y as u32 }
}

/// The cell properties seeded at `(x, y)` from raw height and water-level
/// sample sequences of dimension `nw` by `nw`.
pub open spec fn seeded_cell_props(hm: Seq<i64>, wl: Seq<i64>, nw: int, x: int, y: int)
    -> CellProperties {
    CellProperties {
        height: clamp_spec(noise_at_over(hm, nw, nw, x, y) as int, -UNIT as int,
            UNIT as int) as i64,
        gradient: crate::vector::Vec2 { x: 0, y: 0 },
        air_pressure: UNIT,
        wind: crate::vector::Vec2 { x: 0, y: 0 },
        water: max(0, noise_at_over(wl, nw, nw, x, y) - SEA_LEVEL_OFFSET - noise_at_over(hm, nw,
            nw, x, y)) as i64,
        heat: noise_at_over(hm, nw, nw, x, y),
        resources: 0,
    }
}

/// The whole cell array of the world grown deterministically from `seed`
/// with a `grid` by `grid` gradient lattice and `size` by `size` cells.
pub open spec fn seeded_cells(grid: u32, size: u32, seed: u32) -> Seq<Cell> {
    let res = (size as int) / (grid as int);
    let nw = res * (grid as int);
    let hm = noise_of_seed(seed, grid as int, res);
    let wl = noise_of_seed(seed ^ WATER_SEED_MIX, grid as int, res);
    Seq::new(((size as int) * (size as int)) as nat, |i: int|
        {
            let x = i % (size as int);
            let y = i / (size as int);
            let p = seeded_cell_props(hm, wl, nw, x, y);
            Cell { properties: p, biome_tags: tag_cell_spec(p), x: x as u32, y: y as u32 }
        },
    )
}

/// The toroidal grid of cells, updated synchronously one tick at a time.
pub struct World {
    pub cells: Vec<Cell>,
    pub width: u32,
    pub height: u32,
}

impl World {
    /// Positive dimensions that fit the index arithmetic, one cell per
    /// position carrying its own coordinates, every cell's state valid.
    pub open spec fn wf(self) -> bool {
        &&& self.width >= 1
        &&& self.height >= 1
        &&& (self.width as int) * (self.height as int) <= u32::MAX
        &&& self.cells@.len() == (self.width as int) * (self.height as int)
        &&& forall|i: int|
            0 <= i < self.cells@.len() ==> (#[trigger] self.cells@[i]).properties.valid()
        &&& forall|i: int|
            0 <= i < self.cells@.len() ==> (#[trigger] self.cells@[i]).x == i % (self.width as int)
        &&& forall|i: int|
            0 <= i < self.cells@.len() ==> (#[trigger] self.cells@[i]).y == i / (self.width as int)
    }

    /// Bootstraps a square world of `size` by `size` cells from three
    /// prepared scalar fields.
    pub fn from_description(description: WorldDescription, size: u32) -> (w: World)
        requires
            description.wf(),
            size >= 1,
            (size as int) * (size as int) <= u32::MAX,
        ensures
            w.wf(),
            w.width == size,
            w.height == size,
            w.cells@.len() == (size as int) * (size as int),
            forall|i: int|
                0 <= i < w.cells@.len() ==> w.cells@[i] == bootstrap_cell_spec(description,
                    size as int, i),
    {
        let n = (size as usize) * (size as usize);
        let mut cells: Vec<Cell> = Vec::new();
        let mut i: usize = 0;
        while i < n
            invariant
                description.wf(),
                size >= 1,
                n == (size as int) * (size as int),
                n <= u32::MAX,
                i <= n,
                cells@.len() == i,
                forall|j: int|
                    0 <= j < i ==> cells@[j] == bootstrap_cell_spec(description, size as int, j),
                forall|j: int| 0 <= j < i ==> (#[trigger] cells@[j]).properties.valid(),
                forall|j: int| 0 <= j < i ==> (#[trigger] cells@[j]).x == j % (size as int),
                forall|j: int| 0 <= j < i ==> (#[trigger] cells@[j]).y == j / (size as int),
            decreases n - i,
        {
            let x = (i as u32) % size;
            let y = (i as u32) / size;
            let c = Cell::new(&description, x, y);
            cells.push(c);
            i = i + 1;
        }
        World { cells, width: size, height: size }
    }

    /// Builds a world from fresh random gradients: a `grid` by `grid`
    /// lattice per field, `size` by `size` cells.
    pub fn new(grid: u32, size: u32) -> (w: World)
        requires
            1 <= grid <= size,
            (size as int) * (size as int) <= u32::MAX,
        ensures
            w.wf(),
            w.width == size,
            w.height == size,
            exists|s: u32| w.cells@ == seeded_cells(grid, size, s),
    {
        let seed = random_seed();
        let w = World::new_seeded(grid, size, seed);
        proof {
            assert(w.cells@ == seeded_cells(grid, size, seed));
        }
        w
    }

    /// Builds a world deterministically from `seed`: the resulting cell
    /// array is exactly `seeded_cells(grid, size, seed)`.
    pub fn new_seeded(grid: u32, size: u32, seed: u32) -> (w: World)
        requires
            1 <= grid <= size,
            (size as int) * (size as int) <= u32::MAX,
        ensures
            w.wf(),
            w.width == size,
            w.height == size,
            w.cells@ == seeded_cells(grid, size, seed),
    {
        let resolution = size / grid;
        proof {
            lemma_resolution_bounds(grid as int, size as int);
            assert((grid as int) * (grid as int) <= (size as int) * (size as int))
                by (nonlinear_arith)
                requires
                    1 <= grid as int <= size as int,
            ;
        }
        let grid_height = Grid::from_seed(grid, grid, seed);
        let grid_heat = Grid::from_seed(grid, grid, seed ^ HEAT_SEED_MIX);
        let grid_water = Grid::from_seed(grid, grid, seed ^ WATER_SEED_MIX);
        proof {
            assert(grid_height.gradients@ =~= lattice_of_seed(seed, grid as int, grid as int));
            assert(grid_water.gradients@ =~= lattice_of_seed(seed ^ WATER_SEED_MIX, grid as int,
                grid as int));
        }
        let heightmap = grid_height.generate_noise(resolution);
        let heatmap = grid_heat.generate_noise(resolution);
        let waterlevel = grid_water.generate_noise(resolution);
        proof {
            assert(heightmap.values@ =~= noise_of_seed(seed, grid as int, resolution as int));
            assert(waterlevel.values@ =~= noise_of_seed(seed ^ WATER_SEED_MIX, grid as int,
                resolution as int));
        }
        let description = WorldDescription { heightmap, heatmap, waterlevel };
        let w = World::from_description(description, size);
        proof {
            let res = (size as int) / (grid as int);
            let nw = res * (grid as int);
            let hm = noise_of_seed(seed, grid as int, res);
            let wl = noise_of_seed(seed ^ WATER_SEED_MIX, grid as int, res);
            assert forall|i: int| 0 <= i < w.cells@.len() implies w.cells@[i] == seeded_cells(
                grid, size, seed)[i] by {
                assert(w.cells@[i] == bootstrap_cell_spec(description, size as int, i));
                let x = i % (size as int);
                let y = i / (size as int);
                assert(CellProperties::new_spec(description, x, y) == seeded_cell_props(hm, wl,
                    nw, x, y));
            }
            assert(w.cells@ =~= seeded_cells(grid, size, seed));
        }
        w
    }

    /// The grid dimensions, width then height.
    pub fn size(&self) -> (r: (u32, u32))
        ensures
            r.0 == self.width,
            r.1 == self.height,
    {
        (self.width, self.height)
    }

    /// Advances the whole grid by one synchronous tick: every cell's next
    /// state is computed from the pre-tick snapshot alone, and the cell
    /// array is replaced only after all cells are done, so the result does
    /// not depend on iteration order.
    pub fn update(&mut self, delta: i64)
        requires
            old(self).wf(),
            0 <= delta <= DELTA_MAX,
        ensures
            final(self).wf(),
            final(self).width == old(self).width,
            final(self).height == old(self).height,
            final(self).cells@.len() == old(self).cells@.len(),
            forall|i: int|
                0 <= i < final(self).cells@.len() ==> final(self).cells@[i] == world_next_cell(
                    old(self).cells@, old(self).width as int, old(self).height as int,
                    delta as int, i),
    {
        let w = self.width;
        let h = self.height;
        let n = self.cells.len();
        let mut updated: Vec<Cell> = Vec::new();
        let mut i: usize = 0;
        while i < n
            invariant
                *self == *old(self),
                self.wf(),
                w == self.width,
                h == self.height,
                n == self.cells@.len(),
                0 <= delta <= DELTA_MAX,
                i <= n,
                updated@.len() == i,
                forall|j: int|
                    0 <= j < i ==> updated@[j] == world_next_cell(self.cells@, w as int, h as int,
                        delta as int, j),
                forall|j: int| 0 <= j < i ==> (#[trigger] updated@[j]).properties.valid(),
            decreases n - i,
        {
            let x = (i as u32) % w;
            let y = (i as u32) / w;
            proof {
                lemma_flat_coords_in_range(i as int, w as int, h as int);
            }
            let xp = (x + 1) % w;
            let xm = (((x as u64) + (w as u64) - 1) % (w as u64)) as u32;
            let yp = (y + 1) % h;
            let ym = (((y as u64) + (h as u64) - 1) % (h as u64)) as u32;
            proof {
                vstd::arithmetic::div_mod::lemma_small_mod(x as nat, w as nat);
                vstd::arithmetic::div_mod::lemma_small_mod(y as nat, h as nat);
                lemma_mod_add_multiples_vanish(x as int - 1, w as int);
                lemma_mod_add_multiples_vanish(y as int - 1, h as int);
                lemma_grid_index_in_range(w as int, h as int, x as int, yp as int);
                lemma_grid_index_in_range(w as int, h as int, x as int, ym as int);
                lemma_grid_index_in_range(w as int, h as int, xm as int, y as int);
                lemma_grid_index_in_range(w as int, h as int, xp as int, y as int);
            }
            let neighborhood = Neighborhood {
                up: self.cells[(yp as usize) * (w as usize) + (x as usize)].properties,
                down: self.cells[(ym as usize) * (w as usize) + (x as usize)].properties,
                left: self.cells[(y as usize) * (w as usize) + (xm as usize)].properties,
                right: self.cells[(y as usize) * (w as usize) + (xp as usize)].properties,
                me: self.cells[i].properties,
            };
            proof {
                assert(neighborhood == neighborhood_spec(self.cells@, w as int, h as int,
                    i as int));
            }
            let c = self.cells[i].update(delta, &neighborhood);
            updated.push(c);
            i = i + 1;
        }
        self.cells = updated;
    }

    /// Collects the flat indices of a discretized disk around `center`:
    /// for each column offset within the radius, all row offsets within
    /// `floor(sqrt(radius * radius - dx * dx))` of the center, with both
    /// coordinates wrapped toroidally.
    pub fn select_cells(&self, center: (u32, u32), radius: u32) -> (indices: Vec<usize>)
        requires
            self.wf(),
            center.0 < self.width,
            center.1 < self.height,
            radius <= self.width,
            radius <= self.height,
        ensures
            indices@ == select_cells_spec(self.width as int, self.height as int, center.0 as int,
                center.1 as int, radius as int),
            forall|k: int| 0 <= k < indices@.len() ==> (#[trigger] indices@[k]) < self.cells@.len(),
    {
        let w: i64 = self.width as i64;
        let h: i64 = self.height as i64;
        let cx: i64 = center.0 as i64;
        let cy: i64 = center.1 as i64;
        let r: i64 = radius as i64;
        proof {
            assert(r * r <= w * h) by (nonlinear_arith)
                requires
                    0 <= r <= w,
                    r <= h,
            ;
        }
        let mut indices: Vec<usize> = Vec::new();
        let mut x: i64 = -r;
        while x < r
            invariant
                self.wf(),
                w == self.width as int,
                h == self.height as int,
                cx == center.0 as int,
                cy == center.1 as int,
                r == radius as int,
                0 <= cx < w,
                0 <= cy < h,
                r <= w,
                r <= h,
                r * r <= w * h,
                -r <= x <= r,
                indices@ == disk_upto(w as int, h as int, cx as int, cy as int, r as int,
                    x as int),
                forall|k: int|
                    0 <= k < indices@.len() ==> (#[trigger] indices@[k]) < self.cells@.len(),
            decreases r - x,
        {
            proof {
                assert(0 <= x * x <= r * r) by (nonlinear_arith)
                    requires
                        -r <= x <= r,
                ;
            }
            let ry_u = isqrt((r * r - x * x) as u64);
            proof {
                assert(ry_u * ry_u <= r * r ==> ry_u <= r) by (nonlinear_arith)
                    requires
                        r >= 0,
                        ry_u >= 0,
                ;
            }
            let ry: i64 = ry_u as i64;
            let mut y: i64 = -ry;
            while y < ry
                invariant
                    self.wf(),
                    w == self.width as int,
                    h == self.height as int,
                    cx == center.0 as int,
                    cy == center.1 as int,
                    r == radius as int,
                    0 <= cx < w,
                    0 <= cy < h,
                    r <= w,
                    r <= h,
                    -r <= x < r,
                    0 <= ry <= r,
                    ry == sqrt_floor((r * r - x * x) as nat) as int,
                    -ry <= y <= ry,
                    indices@ == disk_upto(w as int, h as int, cx as int, cy as int, r as int,
                        x as int) + disk_row_upto(w as int, h as int, cx as int, cy as int,
                        x as int, ry as int, y as int),
                    forall|k: int|
                        0 <= k < indices@.len() ==> (#[trigger] indices@[k]) < self.cells@.len(),
                decreases ry - y,
            {
                let px: i64 = (cx + x + w) % w;
                let py: i64 = (cy + y + h) % h;
                proof {
                    lemma_mod_add_multiples_vanish(cx + x, w as int);
                    lemma_mod_add_multiples_vanish(cy + y, h as int);
                    lemma_grid_index_in_range(w as int, h as int, px as int, py as int);
                }
                let idx: usize = (py as usize) * (w as usize) + (px as usize);
                proof {
                    let ghost a = disk_upto(w as int, h as int, cx as int, cy as int, r as int,
                        x as int);
                    let ghost b = disk_row_upto(w as int, h as int, cx as int, cy as int,
                        x as int, ry as int, y as int);
                    let ghost e = seq![idx];
                    assert(disk_row_upto(w as int, h as int, cx as int, cy as int, x as int,
                        ry as int, y as int + 1) == b + e);
                    assert((a + b) + e =~= a + (b + e));
                }
                indices.push(idx);
                y = y + 1;
            }
            proof {
                let ghost a = disk_upto(w as int, h as int, cx as int, cy as int, r as int,
                    x as int);
                let ghost b = disk_row_upto(w as int, h as int, cx as int, cy as int, x as int,
                    ry as int, ry as int);
                assert(disk_upto(w as int, h as int, cx as int, cy as int, r as int, x as int + 1)
                    == a + b);
            }
            x = x + 1;
        }
        indices
    }

    /// Applies one external edit to every cell of the discretized disk
    /// around `(center_x, center_y)`, in selection order.
    pub fn alter_region(
        &mut self,
        center_x: u32,
        center_y: u32,
        radius: u32,
        d_water: i64,
        d_air_pressure: i64,
        d_height: i64,
    )
        requires
            old(self).wf(),
            center_x < old(self).width,
            center_y < old(self).height,
            radius <= old(self).width,
            radius <= old(self).height,
            -EDIT_MAX <= d_water <= EDIT_MAX,
            -EDIT_MAX <= d_air_pressure <= EDIT_MAX,
            -EDIT_MAX <= d_height <= EDIT_MAX,
        ensures
            final(self).wf(),
            final(self).width == old(self).width,
            final(self).height == old(self).height,
            final(self).cells@ == apply_edits_spec(old(self).cells@, select_cells_spec(
                old(self).width as int, old(self).height as int, center_x as int,
                center_y as int, radius as int), d_water as int, d_air_pressure as int,
                d_height as int),
    {
        let indices = self.select_cells((center_x, center_y), radius);
        let n = indices.len();
        let mut k: usize = 0;
        while k < n
            invariant
                self.width == old(self).width,
                self.height == old(self).height,
                self.wf(),
                -EDIT_MAX <= d_water <= EDIT_MAX,
                -EDIT_MAX <= d_air_pressure <= EDIT_MAX,
                -EDIT_MAX <= d_height <= EDIT_MAX,
                n == indices@.len(),
                k <= n,
                indices@ == select_cells_spec(old(self).width as int, old(self).height as int,
                    center_x as int, center_y as int, radius as int),
                forall|j: int|
                    0 <= j < indices@.len() ==> (#[trigger] indices@[j]) < self.cells@.len(),
                self.cells@.len() == old(self).cells@.len(),
                self.cells@ == apply_edits_spec(old(self).cells@, indices@.take(k as int),
                    d_water as int, d_air_pressure as int, d_height as int),
            decreases n - k,
        {
            let idx = indices[k];
            let c = self.cells[idx];
            let p = c.properties.alter_properties(d_water, d_air_pressure, d_height);
            proof {
                assert(indices@.take(k as int + 1).drop_last() =~= indices@.take(k as int));
                assert(indices@.take(k as int + 1).last() == indices@[k as int]);
            }
            self.cells.set(idx, Cell { properties: p, biome_tags: c.biome_tags, x: c.x, y: c.y });
            k = k + 1;
        }
        proof {
            assert(indices@.take(n as int) =~= indices@);
        }
    }
}

/// The selected indices of the column strip at offset `x`, for row
/// offsets `dy` in `[-ry, y)`, in row order.
pub open spec fn disk_row_upto(w: int, h: int, cx: int, cy: int, x: int, ry: int, y: int)
    -> Seq<usize>
    decreases y + ry,
{
    if y <= -ry {
        Seq::empty()
    } else {
        disk_row_upto(w, h, cx, cy, x, ry, y - 1) + seq![
            world_index_spec(w, h, cx + x, cy + (y - 1)) as usize,
        ]
    }
}

/// The selected indices of all column strips at offsets in `[-radius, x)`:
/// each strip spans row offsets within the discretized disk,
/// `floor(sqrt(radius * radius - dx * dx))` rows either side.
pub open spec fn disk_upto(w: int, h: int, cx: int, cy: int, radius: int, x: int) -> Seq<usize>
    decreases x + radius,
{
    if x <= -radius {
        Seq::empty()
    } else {
        let ry = sqrt_floor((radius * radius - (x - 1) * (x - 1)) as nat) as int;
        disk_upto(w, h, cx, cy, radius, x - 1) + disk_row_upto(w, h, cx, cy, x - 1, ry, ry)
    }
}

/// The flat indices of the cells of a discretized disk of the given
/// radius around `(cx, cy)`, wrapped toroidally, in selection order.
pub open spec fn select_cells_spec(w: int, h: int, cx: int, cy: int, radius: int) -> Seq<usize> {
    disk_upto(w, h, cx, cy, radius, radius)
}

/// One edit applied to a single cell: the properties are altered and
/// re-clamped; tags and position are untouched (the next tick refreshes
/// the tags).
pub open spec fn edit_cell_spec(c: Cell, dw: int, dp: int, dh: int) -> Cell {
    Cell {
        properties: alter_properties_spec(c.properties, dw, dp, dh),
        biome_tags: c.biome_tags,
        x: c.x,
        y: c.y,
    }
}

/// The cell array after one edit is applied at each listed index in list
/// order; an index listed twice is edited twice.
pub open spec fn apply_edits_spec(
    cells: Seq<Cell>,
    indices: Seq<usize>,
    dw: int,
    dp: int,
    dh: int,
) -> Seq<Cell>
    decreases indices.len(),
{
    if indices.len() == 0 {
        cells
    } else {
        let prev = apply_edits_spec(cells, indices.drop_last(), dw, dp, dh);
        let i = indices.last() as int;
        prev.update(i, edit_cell_spec(prev[i], dw, dp, dh))
    }
}

/// The flat index of the wrapped coordinates `(x, y)` in a `w` by `h`
/// grid.
pub open spec fn world_index_spec(w: int, h: int, x: int, y: int) -> int {
    (y % h) * w + (x % w)
}

/// The neighborhood snapshot of the cell at flat index `i`: its own
/// properties and those of its four toroidal neighbors.
pub open spec fn neighborhood_spec(cells: Seq<Cell>, w: int, h: int, i: int) -> Neighborhood {
    let x = i % w;
    let y = i / w;
    Neighborhood {
        up: cells[world_index_spec(w, h, x, y + 1)].properties,
        down: cells[world_index_spec(w, h, x, y - 1)].properties,
        left: cells[world_index_spec(w, h, x - 1, y)].properties,
        right: cells[world_index_spec(w, h, x + 1, y)].properties,
        me: cells[i].properties,
    }
}

/// The cell at flat index `i` after one tick of the whole grid.
pub open spec fn world_next_cell(cells: Seq<Cell>, w: int, h: int, delta: int, i: int) -> Cell {
    cell_update_spec(cells[i], delta, neighborhood_spec(cells, w, h, i))
}

/// Every entry of a column strip addresses a row offset between the strip
/// bounds.
proof fn lemma_row_entries_in_strip(w: int, h: int, cx: int, cy: int, x: int, ry: int, y: int,
    k: int)
    requires
        0 <= k < disk_row_upto(w, h, cx, cy, x, ry, y).len(),
    ensures
        exists|dy: int|
            -ry <= dy < y && disk_row_upto(w, h, cx, cy, x, ry, y)[k] == (
            #[trigger] world_index_spec(w, h, cx + x, cy + dy)) as usize,
    decreases y + ry,
{
    if y <= -ry {
    } else {
        let prev = disk_row_upto(w, h, cx, cy, x, ry, y - 1);
        if k < prev.len() {
            lemma_row_entries_in_strip(w, h, cx, cy, x, ry, y - 1, k);
            let dy = choose|dy: int|
                -ry <= dy < y - 1 && prev[k] == (#[trigger] world_index_spec(w, h, cx + x, cy
                    + dy)) as usize;
            assert(-ry <= dy < y && disk_row_upto(w, h, cx, cy, x, ry, y)[k]
                == world_index_spec(w, h, cx + x, cy + dy) as usize);
        } else {
            assert(disk_row_upto(w, h, cx, cy, x, ry, y)[k] == world_index_spec(w, h, cx + x, cy
                + (y - 1)) as usize);
        }
    }
}

/// Every entry of the strips up to `x` addresses an offset within the
/// selection disk.
proof fn lemma_disk_entries_in_disk(w: int, h: int, cx: int, cy: int, radius: int, x: int,
    k: int)
    requires
        x <= radius,
        0 <= k < disk_upto(w, h, cx, cy, radius, x).len(),
    ensures
        exists|dx: int, dy: int|
            dx * dx + dy * dy <= radius * radius && disk_upto(w, h, cx, cy, radius, x)[k] == (
            #[trigger] world_index_spec(w, h, cx + dx, cy + dy)) as usize,
    decreases x + radius,
{
    if x <= -radius {
    } else {
        let prev = disk_upto(w, h, cx, cy, radius, x - 1);
        let ghost rr = (radius * radius - (x - 1) * (x - 1)) as nat;
        let ry = sqrt_floor(rr) as int;
        if k < prev.len() {
            lemma_disk_entries_in_disk(w, h, cx, cy, radius, x - 1, k);
            let (dx, dy) = choose|dx: int, dy: int|
                dx * dx + dy * dy <= radius * radius && prev[k] == (#[trigger] world_index_spec(
                w, h, cx + dx, cy + dy)) as usize;
            assert(dx * dx + dy * dy <= radius * radius && disk_upto(w, h, cx, cy, radius, x)[k]
                == world_index_spec(w, h, cx + dx, cy + dy) as usize);
        } else {
            let row = disk_row_upto(w, h, cx, cy, x - 1, ry, ry);
            lemma_row_entries_in_strip(w, h, cx, cy, x - 1, ry, ry, k - prev.len());
            let dy = choose|dy: int|
                -ry <= dy < ry && row[k - prev.len()] == (#[trigger] world_index_spec(w, h, cx
                    + (x - 1), cy + dy)) as usize;
            lemma_sqrt_floor_bounds(rr);
            assert((x - 1) * (x - 1) <= radius * radius) by (nonlinear_arith)
                requires
                    -radius < x <= radius,
            ;
            assert(dy * dy <= ry * ry) by (nonlinear_arith)
                requires
                    -ry <= dy <= ry,
            ;
            assert((x - 1) * (x - 1) + dy * dy <= radius * radius);
            assert(disk_upto(w, h, cx, cy, radius, x)[k] == world_index_spec(w, h, cx + (x - 1),
                cy + dy) as usize);
        }
    }
}

/// The selection is a disk: every selected index addresses a cell whose
/// offset `(dx, dy)` from the center satisfies
/// `dx * dx + dy * dy <= radius * radius`, wrapped toroidally.
pub proof fn lemma_selection_within_disk(w: int, h: int, cx: int, cy: int, radius: int, k: int)
    requires
        0 <= k < select_cells_spec(w, h, cx, cy, radius).len(),
    ensures
        exists|dx: int, dy: int|
            dx * dx + dy * dy <= radius * radius && select_cells_spec(w, h, cx, cy, radius)[k]
                == (#[trigger] world_index_spec(w, h, cx + dx, cy + dy)) as usize,
{
    lemma_disk_entries_in_disk(w, h, cx, cy, radius, radius, k);
}

/// Determinism: the cell array grown from a seed is a pure function of
/// the seed and the dimensions, and the cell array after a tick is a pure
/// function of the array before it and the time step. Two runs from equal
/// seeds that apply equal time steps therefore produce equal worlds.
pub proof fn lemma_determinism(w1: World, w2: World, grid: u32, size: u32, seed: u32, delta: i64)
    requires
        w1.cells@ == seeded_cells(grid, size, seed),
        w2.cells@ == seeded_cells(grid, size, seed),
        w1.width == size,
        w2.width == size,
        w1.height == size,
        w2.height == size,
    ensures
        w1.cells@ == w2.cells@,
        forall|i: int|
            0 <= i < w1.cells@.len() ==> world_next_cell(w1.cells@, w1.width as int,
                w1.height as int, delta as int, i) == world_next_cell(w2.cells@, w2.width as int,
                w2.height as int, delta as int, i),
{
}

/// In-range coordinates index within the cell array.
proof fn lemma_grid_index_in_range(w: int, h: int, x: int, y: int)
    requires
        0 <= x < w,
        0 <= y < h,
    ensures
        0 <= y * w + x < w * h,
{
    assert(0 <= y * w + x < w * h) by (nonlinear_arith)
        requires
            0 <= x < w,
            0 <= y < h,
    ;
}

/// The coordinates unflattened from a flat index are in range.
proof fn lemma_flat_coords_in_range(i: int, w: int, h: int)
    requires
        w >= 1,
        h >= 1,
        0 <= i < w * h,
    ensures
        0 <= i % w < w,
        0 <= i / w < h,
{
    assert(0 <= i % w < w && 0 <= i / w < h) by (nonlinear_arith)
        requires
            w >= 1,
            h >= 1,
            0 <= i < w * h,
    ;
}

/// A lattice never outnumbers the cells it seeds: the noise resolution is
/// at least one sample per lattice cell, and the sampled field fits the
/// index arithmetic.
proof fn lemma_resolution_bounds(grid: int, size: int)
    requires
        1 <= grid <= size,
        size * size <= u32::MAX,
    ensures
        1 <= size / grid,
        (size / grid) * grid <= size,
        ((size / grid) * grid) * ((size / grid) * grid) <= u32::MAX,
{
    assert(1 <= size / grid && (size / grid) * grid <= size) by (nonlinear_arith)
        requires
            1 <= grid <= size,
    ;
    assert(((size / grid) * grid) * ((size / grid) * grid) <= size * size) by (nonlinear_arith)
        requires
            0 <= (size / grid) * grid <= size,
    ;
}

} // verus!

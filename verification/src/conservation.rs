//! Grid-level water balance: summed over the whole toroidal grid, the
//! directional water flows of one tick cancel exactly, because every
//! transfer a cell books as inflow its neighbor books as equal outflow.

use vstd::prelude::*;
use vstd::arithmetic::div_mod::{lemma_fundamental_div_mod_converse, lemma_mod_add_multiples_vanish,
    lemma_mod_self_0, lemma_small_mod};
use crate::cell::{lemma_water_diff_antisymmetric, update_water_spec, water_diff_spec, Cell,
    QMAX, WATER_PROPAGATION_FACTOR};
use crate::fixed::{clamp_spec, fp_mul_spec};
use crate::world::neighborhood_spec;

verus! {

/// The sum of `f` over the integers in `[a, b)`.
pub open spec fn sum_range(a: int, b: int, f: spec_fn(int) -> int) -> int
    decreases b - a,
{
    if b <= a {
        0
    } else {
        sum_range(a, b - 1, f) + f(b - 1)
    }
}

/// A sum can also be peeled at its first term.
proof fn lemma_sum_peel_first(a: int, b: int, f: spec_fn(int) -> int)
    requires
        a < b,
    ensures
        sum_range(a, b, f) == f(a) + sum_range(a + 1, b, f),
    decreases b - a,
{
    if a + 1 < b {
        lemma_sum_peel_first(a, b - 1, f);
    } else {
        assert(sum_range(a + 1, b, f) == 0);
        assert(sum_range(a, a, f) == 0);
    }
}

/// Sums of pointwise-equal functions are equal.
proof fn lemma_sum_ext(a: int, b: int, f: spec_fn(int) -> int, g: spec_fn(int) -> int)
    requires
        forall|i: int| a <= i < b ==> #[trigger] f(i) == g(i),
    ensures
        sum_range(a, b, f) == sum_range(a, b, g),
    decreases b - a,
{
    if a < b {
        lemma_sum_ext(a, b - 1, f, g);
    }
}

/// The sum of a pointwise sum splits into two sums.
proof fn lemma_sum_add(a: int, b: int, f: spec_fn(int) -> int, g: spec_fn(int) -> int,
    h: spec_fn(int) -> int)
    requires
        forall|i: int| a <= i < b ==> #[trigger] h(i) == f(i) + g(i),
    ensures
        sum_range(a, b, h) == sum_range(a, b, f) + sum_range(a, b, g),
    decreases b - a,
{
    if a < b {
        lemma_sum_add(a, b - 1, f, g, h);
    }
}

/// The sum of a pointwise negation is the negated sum.
proof fn lemma_sum_neg(a: int, b: int, f: spec_fn(int) -> int, g: spec_fn(int) -> int)
    requires
        forall|i: int| a <= i < b ==> #[trigger] g(i) == -f(i),
    ensures
        sum_range(a, b, g) == -sum_range(a, b, f),
    decreases b - a,
{
    if a < b {
        lemma_sum_neg(a, b - 1, f, g);
    }
}

/// A sum splits at any point between its bounds.
proof fn lemma_sum_split(a: int, b: int, c: int, f: spec_fn(int) -> int)
    requires
        a <= b <= c,
    ensures
        sum_range(a, c, f) == sum_range(a, b, f) + sum_range(b, c, f),
    decreases c - b,
{
    if b < c {
        lemma_sum_split(a, b, c - 1, f);
    }
}

/// Shifting the argument by an offset shifts the bounds.
proof fn lemma_sum_offset(a: int, b: int, k: int, f: spec_fn(int) -> int,
    g: spec_fn(int) -> int)
    requires
        forall|i: int| a <= i < b ==> #[trigger] g(i) == f(i + k),
    ensures
        sum_range(a, b, g) == sum_range(a + k, b + k, f),
    decreases b - a,
{
    if a < b {
        lemma_sum_offset(a, b - 1, k, f, g);
    }
}

/// A sum of pointwise-zero terms is zero.
proof fn lemma_sum_zero(a: int, b: int, f: spec_fn(int) -> int)
    requires
        forall|i: int| a <= i < b ==> #[trigger] f(i) == 0,
    ensures
        sum_range(a, b, f) == 0,
    decreases b - a,
{
    if a < b {
        lemma_sum_zero(a, b - 1, f);
    }
}

/// A row-major sum over the whole grid equals the sum of the row sums.
proof fn lemma_sum_grid_rows(w: int, h: int, f: spec_fn(int) -> int)
    requires
        w >= 1,
        h >= 0,
    ensures
        sum_range(0, w * h, f) == sum_range(0, h, |y: int| sum_range(0, w, |x: int|
            f(y * w + x))),
    decreases h,
{
    let rows = |y: int| sum_range(0, w, |x: int| f(y * w + x));
    if h == 0 {
    } else {
        lemma_sum_grid_rows(w, h - 1, f);
        assert(0 <= w * (h - 1) <= w * h) by (nonlinear_arith)
            requires
                w >= 1,
                h >= 1,
        ;
        lemma_sum_split(0, w * (h - 1), w * h, f);
        let last_row = |x: int| f((h - 1) * w + x);
        assert forall|x: int| 0 <= x < w implies #[trigger] last_row(x) == f(x + (h - 1) * w) by {
        }
        lemma_sum_offset(0, w, (h - 1) * w, f, last_row);
        assert(w + (h - 1) * w == w * h && (h - 1) * w == w * (h - 1)) by (nonlinear_arith);
        assert(rows(h - 1) == sum_range(0, w, last_row)) by {
            lemma_sum_ext(0, w, |x: int| f((h - 1) * w + x), last_row);
        }
    }
}

/// A finite double sum may be taken in either order.
proof fn lemma_sum_exchange(w: int, h: int, t: spec_fn(int, int) -> int)
    requires
        w >= 0,
        h >= 0,
    ensures
        sum_range(0, h, |y: int| sum_range(0, w, |x: int| t(x, y))) == sum_range(0, w, |x: int|
            sum_range(0, h, |y: int| t(x, y))),
    decreases h,
{
    let cols_to = |hh: int| (|x: int| sum_range(0, hh, |y: int| t(x, y)));
    if h == 0 {
        lemma_sum_zero(0, w, cols_to(0));
    } else {
        lemma_sum_exchange(w, h - 1, t);
        let last = |x: int| t(x, h - 1);
        assert forall|x: int| 0 <= x < w implies #[trigger] cols_to(h)(x) == cols_to(h - 1)(x)
            + last(x) by {
        }
        lemma_sum_add(0, w, cols_to(h - 1), last, cols_to(h));
    }
}

/// Summing a function composed with a one-step cyclic rotation gives the
/// same total as summing the function itself.
proof fn lemma_sum_cyclic(n: int, f: spec_fn(int) -> int, g: spec_fn(int) -> int)
    requires
        n >= 1,
        forall|i: int| 0 <= i < n ==> #[trigger] g(i) == f((i + 1) % n),
    ensures
        sum_range(0, n, g) == sum_range(0, n, f),
{
    lemma_mod_self_0(n);
    assert(g(n - 1) == f(0));
    assert forall|i: int| 0 <= i < n - 1 implies #[trigger] g(i) == f(i + 1) by {
        lemma_small_mod((i + 1) as nat, n as nat);
    }
    lemma_sum_offset(0, n - 1, 1, f, g);
    lemma_sum_peel_first(0, n, f);
}

/// The water flow into the cell at flat index `i` from its upper
/// neighbor, as the tick's water update counts it.
pub open spec fn up_flow_at(cells: Seq<Cell>, w: int, h: int, i: int) -> int {
    let nh = neighborhood_spec(cells, w, h, i);
    water_diff_spec(nh.me, nh.up, -nh.up.wind.y - nh.me.wind.y)
}

/// The water flow into the cell at flat index `i` from its lower
/// neighbor.
pub open spec fn down_flow_at(cells: Seq<Cell>, w: int, h: int, i: int) -> int {
    let nh = neighborhood_spec(cells, w, h, i);
    water_diff_spec(nh.me, nh.down, nh.down.wind.y + nh.me.wind.y)
}

/// The water flow into the cell at flat index `i` from its left neighbor.
pub open spec fn left_flow_at(cells: Seq<Cell>, w: int, h: int, i: int) -> int {
    let nh = neighborhood_spec(cells, w, h, i);
    water_diff_spec(nh.me, nh.left, nh.left.wind.x + nh.me.wind.x)
}

/// The water flow into the cell at flat index `i` from its right
/// neighbor.
pub open spec fn right_flow_at(cells: Seq<Cell>, w: int, h: int, i: int) -> int {
    let nh = neighborhood_spec(cells, w, h, i);
    water_diff_spec(nh.me, nh.right, -nh.right.wind.x - nh.me.wind.x)
}

/// The net water flow the tick books for the cell at flat index `i`: the
/// four directional flows that the water update sums.
pub open spec fn net_flow_at(cells: Seq<Cell>, w: int, h: int, i: int) -> int {
    up_flow_at(cells, w, h, i) + down_flow_at(cells, w, h, i) + left_flow_at(cells, w, h, i)
        + right_flow_at(cells, w, h, i)
}

/// The net flow of the balance theorem is exactly the flow the water
/// update scales and accumulates.
pub proof fn lemma_net_flow_matches_update(cells: Seq<Cell>, w: int, h: int, i: int, delta: int)
    ensures
        ({
            let nh = neighborhood_spec(cells, w, h, i);
            update_water_spec(delta, nh) == clamp_spec(nh.me.water + fp_mul_spec(fp_mul_spec(
                delta, WATER_PROPAGATION_FACTOR as int), net_flow_at(cells, w, h, i)), 0,
                QMAX as int)
        }),
{
}

/// Stepping one column to the right turns this cell's rightward intake
/// into that neighbor's equal leftward outflow.
proof fn lemma_right_left_pair(cells: Seq<Cell>, w: int, h: int, x: int, y: int)
    requires
        w >= 1,
        h >= 1,
        cells.len() == w * h,
        0 <= x < w,
        0 <= y < h,
        forall|i: int| 0 <= i < cells.len() ==> (#[trigger] cells[i]).properties.water >= 0,
    ensures
        right_flow_at(cells, w, h, y * w + x) == -left_flow_at(cells, w, h, y * w + (x + 1) % w),
{
    let i = y * w + x;
    let xr = (x + 1) % w;
    let j = y * w + xr;
    lemma_small_mod(y as nat, h as nat);
    lemma_small_mod(x as nat, w as nat);
    if x + 1 < w {
        lemma_small_mod((x + 1) as nat, w as nat);
        lemma_small_mod(x as nat, w as nat);
        assert(xr == x + 1);
        assert((xr - 1) % w == x);
    } else {
        lemma_mod_self_0(w);
        assert(xr == 0);
        lemma_mod_add_multiples_vanish(-1, w);
        lemma_small_mod((w - 1) as nat, w as nat);
        assert((xr - 1) % w == x);
    }
    lemma_fundamental_div_mod_converse(i, w, y, x);
    lemma_fundamental_div_mod_converse(j, w, y, xr);
    assert(0 <= i < w * h && 0 <= j < w * h) by (nonlinear_arith)
        requires
            0 <= x < w,
            0 <= xr < w,
            0 <= y < h,
            i == y * w + x,
            j == y * w + xr,
    ;
    let nhi = neighborhood_spec(cells, w, h, i);
    let nhj = neighborhood_spec(cells, w, h, j);
    assert(nhi.right == cells[j].properties);
    assert(nhj.left == cells[i].properties);
    assert(nhi.me == cells[i].properties && nhj.me == cells[j].properties);
    lemma_water_diff_antisymmetric(cells[i].properties, cells[j].properties,
        -cells[j].properties.wind.x - cells[i].properties.wind.x);
}

/// Stepping one row up turns this cell's upward intake into that
/// neighbor's equal downward outflow.
proof fn lemma_up_down_pair(cells: Seq<Cell>, w: int, h: int, x: int, y: int)
    requires
        w >= 1,
        h >= 1,
        cells.len() == w * h,
        0 <= x < w,
        0 <= y < h,
        forall|i: int| 0 <= i < cells.len() ==> (#[trigger] cells[i]).properties.water >= 0,
    ensures
        up_flow_at(cells, w, h, y * w + x) == -down_flow_at(cells, w, h, ((y + 1) % h) * w + x),
{
    let i = y * w + x;
    let yu = (y + 1) % h;
    let j = yu * w + x;
    lemma_small_mod(x as nat, w as nat);
    lemma_small_mod(y as nat, h as nat);
    if y + 1 < h {
        lemma_small_mod((y + 1) as nat, h as nat);
        assert(yu == y + 1);
        assert((yu - 1) % h == y);
    } else {
        lemma_mod_self_0(h);
        assert(yu == 0);
        lemma_mod_add_multiples_vanish(-1, h);
        lemma_small_mod((h - 1) as nat, h as nat);
        assert((yu - 1) % h == y);
    }
    lemma_fundamental_div_mod_converse(i, w, y, x);
    lemma_fundamental_div_mod_converse(j, w, yu, x);
    assert(0 <= i < w * h && 0 <= j < w * h) by (nonlinear_arith)
        requires
            0 <= x < w,
            0 <= y < h,
            0 <= yu < h,
            i == y * w + x,
            j == yu * w + x,
    ;
    let nhi = neighborhood_spec(cells, w, h, i);
    let nhj = neighborhood_spec(cells, w, h, j);
    assert(nhi.up == cells[j].properties);
    assert(nhj.down == cells[i].properties);
    assert(nhi.me == cells[i].properties && nhj.me == cells[j].properties);
    lemma_water_diff_antisymmetric(cells[i].properties, cells[j].properties,
        -cells[j].properties.wind.y - cells[i].properties.wind.y);
}

/// Within one row, the leftward and rightward flows cancel: each cell's
/// rightward intake reappears as its right neighbor's leftward outflow,
/// and the row closes on itself toroidally.
proof fn lemma_row_balances(cells: Seq<Cell>, w: int, h: int, y: int)
    requires
        w >= 1,
        h >= 1,
        cells.len() == w * h,
        0 <= y < h,
        forall|i: int| 0 <= i < cells.len() ==> (#[trigger] cells[i]).properties.water >= 0,
    ensures
        sum_range(0, w, |x: int| left_flow_at(cells, w, h, y * w + x) + right_flow_at(cells, w,
            h, y * w + x)) == 0,
{
    let lf = |x: int| left_flow_at(cells, w, h, y * w + x);
    let rf = |x: int| right_flow_at(cells, w, h, y * w + x);
    let rot = |x: int| lf((x + 1) % w);
    let both = |x: int| left_flow_at(cells, w, h, y * w + x) + right_flow_at(cells, w, h, y * w
        + x);
    assert forall|x: int| 0 <= x < w implies #[trigger] rf(x) == -rot(x) by {
        lemma_right_left_pair(cells, w, h, x, y);
    }
    lemma_sum_neg(0, w, rot, rf);
    lemma_sum_cyclic(w, lf, rot);
    lemma_sum_add(0, w, lf, rf, both);
}

/// Within one column, the upward and downward flows cancel in the same
/// way.
proof fn lemma_column_balances(cells: Seq<Cell>, w: int, h: int, x: int)
    requires
        w >= 1,
        h >= 1,
        cells.len() == w * h,
        0 <= x < w,
        forall|i: int| 0 <= i < cells.len() ==> (#[trigger] cells[i]).properties.water >= 0,
    ensures
        sum_range(0, h, |y: int| up_flow_at(cells, w, h, y * w + x) + down_flow_at(cells, w, h, y
            * w + x)) == 0,
{
    let uf = |y: int| up_flow_at(cells, w, h, y * w + x);
    let df = |y: int| down_flow_at(cells, w, h, y * w + x);
    let rot = |y: int| df((y + 1) % h);
    let both = |y: int| up_flow_at(cells, w, h, y * w + x) + down_flow_at(cells, w, h, y * w + x);
    assert forall|y: int| 0 <= y < h implies #[trigger] uf(y) == -rot(y) by {
        lemma_up_down_pair(cells, w, h, x, y);
    }
    lemma_sum_neg(0, h, df, |y: int| -df(y));
    assert forall|y: int| 0 <= y < h implies #[trigger] uf(y) == (|yy: int| -df((yy + 1)
        % h))(y) by {
    }
    lemma_sum_ext(0, h, uf, |y: int| -df((y + 1) % h));
    lemma_sum_cyclic(h, |y: int| -df(y), |y: int| -df((y + 1) % h));
    lemma_sum_add(0, h, uf, df, both);
}

/// Mass balance of one tick's bookkeeping: summed over the whole toroidal
/// grid, the directional water flows cancel exactly. Any change of total
/// water in a tick therefore comes only from the per-cell scaling,
/// truncation and saturation of those flows, never from the flows
/// themselves.
pub proof fn lemma_grid_flows_balance(cells: Seq<Cell>, w: int, h: int)
    requires
        w >= 1,
        h >= 1,
        cells.len() == w * h,
        forall|i: int| 0 <= i < cells.len() ==> (#[trigger] cells[i]).properties.water >= 0,
    ensures
        sum_range(0, w * h, |i: int| net_flow_at(cells, w, h, i)) == 0,
{
    let net = |i: int| net_flow_at(cells, w, h, i);
    let lr = |i: int| left_flow_at(cells, w, h, i) + right_flow_at(cells, w, h, i);
    let ud = |i: int| up_flow_at(cells, w, h, i) + down_flow_at(cells, w, h, i);
    lemma_sum_add(0, w * h, ud, lr, net);

    // the sideways flows cancel row by row
    lemma_sum_grid_rows(w, h, lr);
    let lr_rows = |y: int| sum_range(0, w, |x: int| lr(y * w + x));
    assert forall|y: int| 0 <= y < h implies #[trigger] lr_rows(y) == 0 by {
        lemma_row_balances(cells, w, h, y);
        lemma_sum_ext(0, w, |x: int| lr(y * w + x), |x: int| left_flow_at(cells, w, h, y * w + x)
            + right_flow_at(cells, w, h, y * w + x));
    }
    lemma_sum_zero(0, h, lr_rows);

    // the vertical flows cancel column by column, after exchanging the
    // order of summation
    lemma_sum_grid_rows(w, h, ud);
    let t = |x: int, y: int| ud(y * w + x);
    let ud_rows = |y: int| sum_range(0, w, |x: int| ud(y * w + x));
    let t_rows = |y: int| sum_range(0, w, |x: int| t(x, y));
    assert forall|y: int| 0 <= y < h implies #[trigger] ud_rows(y) == t_rows(y) by {
        lemma_sum_ext(0, w, |x: int| ud(y * w + x), |x: int| t(x, y));
    }
    lemma_sum_ext(0, h, ud_rows, t_rows);
    lemma_sum_exchange(w, h, t);
    let ud_cols = |x: int| sum_range(0, h, |y: int| t(x, y));
    assert forall|x: int| 0 <= x < w implies #[trigger] ud_cols(x) == 0 by {
        lemma_column_balances(cells, w, h, x);
        lemma_sum_ext(0, h, |y: int| t(x, y), |y: int| up_flow_at(cells, w, h, y * w + x)
            + down_flow_at(cells, w, h, y * w + x));
    }
    lemma_sum_zero(0, w, ud_cols);
}

} // verus!

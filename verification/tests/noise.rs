use terrasim::fixed::UNIT;
use terrasim::perlin::{Grid, Noise};
use terrasim::vector::Vec2;

fn ramp_field() -> Noise {
    // value(x, y) = 10 * x + 100 * y on a 3 by 3 field
    let mut values = Vec::new();
    for y in 0..3i64 {
        for x in 0..3i64 {
            values.push(10 * x + 100 * y);
        }
    }
    Noise::from_values(3, 3, values)
}

#[test]
fn get_indexes_row_major() {
    let n = ramp_field();
    assert_eq!(n.get(0, 0), 0);
    assert_eq!(n.get(2, 0), 20);
    assert_eq!(n.get(0, 2), 200);
    assert_eq!(n.get(2, 2), 220);
}

#[test]
fn sampling_wraps_toroidally() {
    let n = ramp_field();
    // one full period along either axis lands on the same sample
    assert_eq!(n.get(3, 0), n.get(0, 0));
    assert_eq!(n.get(0, 3), n.get(0, 0));
    assert_eq!(n.get(5, 4), n.get(2, 1));
}

#[test]
fn gradient_is_half_the_central_difference() {
    let n = ramp_field();
    let g = n.get_gradient(1, 1);
    // x: (v(2,1) - v(0,1)) / 2 = (120 - 100) / 2; y: (v(1,2) - v(1,0)) / 2
    assert_eq!(g, Vec2 { x: 10, y: 100 });
}

#[test]
fn gradient_wraps_at_the_border() {
    let n = ramp_field();
    let g = n.get_gradient(0, 0);
    // x: (v(1,0) - v(2,0)) / 2 = (10 - 20) / 2, truncated toward zero;
    // y: (v(0,1) - v(0,2)) / 2 = (100 - 200) / 2
    assert_eq!(g, Vec2 { x: -5, y: -50 });
}

#[test]
fn seeded_lattices_are_reproducible() {
    let a = Grid::from_seed(4, 4, 42);
    let b = Grid::from_seed(4, 4, 42);
    assert_eq!(a.gradients, b.gradients);
    let c = Grid::from_seed(4, 4, 43);
    assert_ne!(a.gradients, c.gradients);
}

#[test]
fn lattice_gradients_are_unit_bounded() {
    let g = Grid::from_seed(5, 3, 7);
    assert_eq!(g.gradients.len(), 15);
    for v in &g.gradients {
        assert!(v.x.abs() <= UNIT);
        assert!(v.y.abs() <= UNIT);
        // every drawn gradient is the zero vector or lies within one
        // ten-thousandth of unit length
        let mag_sq = v.x * v.x + v.y * v.y;
        assert!(
            (v.x == 0 && v.y == 0)
                || ((UNIT - 100) * (UNIT - 100) <= mag_sq && mag_sq <= (UNIT + 100) * (UNIT + 100))
        );
    }
}

#[test]
fn generated_fields_have_scaled_dimensions_and_bounded_samples() {
    let g = Grid::from_seed(3, 3, 99);
    let n = g.generate_noise(5);
    assert_eq!(n.width, 15);
    assert_eq!(n.height, 15);
    assert_eq!(n.values.len(), 225);
    for v in &n.values {
        // a sample is a twice-blended corner weight: at most the unit-cell
        // diagonal of a near-unit gradient, plus truncation slack
        assert!(v.abs() <= 1_414_404);
    }
}

#[test]
fn generated_fields_are_seed_deterministic() {
    let a = Grid::from_seed(3, 3, 1234).generate_noise(4);
    let b = Grid::from_seed(3, 3, 1234).generate_noise(4);
    assert_eq!(a.values, b.values);
}

#[test]
fn generated_fields_vanish_at_lattice_points() {
    // at a lattice point the offset to the nearest corner is zero and the
    // blend weight of every other corner is zero, so the sample is the dot
    // product of the corner gradient with the zero offset
    let g = Grid::from_seed(4, 4, 5);
    let n = g.generate_noise(8);
    assert_eq!(n.get(0, 0), 0);
    assert_eq!(n.get(8, 16), 0);
}

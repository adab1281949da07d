use perlin::array::TwoDArray;
use perlin::lattice::{vertex_count, wrap_edges, ConfigError, GradientLattice};

#[test]
fn vertex_count_values() {
    assert_eq!(vertex_count(0), Err(ConfigError::ZeroGridSize));
    assert_eq!(vertex_count(1), Ok(4));
    assert_eq!(vertex_count(25), Ok(676));
    assert_eq!(vertex_count(u32::MAX), Err(ConfigError::TooLarge));
}

#[test]
fn wrap_edges_copies_first_row_and_column() {
    let mut a = TwoDArray::new((0u32..9).collect(), 3, 3).unwrap();
    wrap_edges(&mut a);
    assert_eq!(a.f, vec![0, 1, 0, 3, 4, 3, 0, 1, 0]);
}

#[test]
fn wrap_edges_on_single_vertex() {
    let mut a = TwoDArray::new(vec![7u8], 1, 1).unwrap();
    wrap_edges(&mut a);
    assert_eq!(a.f, vec![7]);
}

fn float_lattice(g: u32) -> GradientLattice<f64, (f64, f64)> {
    let n = vertex_count(g).unwrap();
    let heights: Vec<f64> = (0..n).map(|i| i as f64 / n as f64).collect();
    let grads: Vec<(f64, f64)> = (0..n).map(|i| (i as f64, -(i as f64))).collect();
    GradientLattice::build(g, heights, grads).unwrap()
}

#[test]
fn built_heights_wrap_on_both_axes() {
    let g = 4;
    let l = float_lattice(g);
    assert_eq!(l.grid_size(), g);
    for i in 0..=g {
        assert_eq!(l.height_at(g, i), l.height_at(0, i));
        assert_eq!(l.height_at(i, g), l.height_at(i, 0));
    }
    // Inner vertices keep what was drawn for them.
    assert_eq!(*l.height_at(1, 2), 11.0 / 25.0);
    assert_eq!(*l.height_at(g, g), 0.0);
}

#[test]
fn built_gradients_are_not_wrapped() {
    let l = float_lattice(2);
    assert_eq!(*l.gradient_at(2, 0), (2.0, -2.0));
    assert_eq!(*l.gradient_at(0, 2), (6.0, -6.0));
    assert_eq!(*l.gradient_at(2, 2), (8.0, -8.0));
}

#[test]
fn build_rejects_bad_configuration() {
    let r = GradientLattice::<f64, (f64, f64)>::build(0, vec![0.5], vec![(1.0, 0.0)]);
    assert!(matches!(r, Err(ConfigError::ZeroGridSize)));
    let r = GradientLattice::<f64, (f64, f64)>::build(1, vec![0.5; 3], vec![(1.0, 0.0); 4]);
    assert!(matches!(r, Err(ConfigError::SizeMismatch)));
    let r = GradientLattice::<f64, (f64, f64)>::build(1, vec![0.5; 4], vec![(1.0, 0.0); 5]);
    assert!(matches!(r, Err(ConfigError::SizeMismatch)));
    let r = GradientLattice::<u8, u8>::build(u32::MAX, vec![], vec![]);
    assert!(matches!(r, Err(ConfigError::TooLarge)));
}

#[test]
fn cell_origin_keeps_far_edge_in_last_cell() {
    let l = float_lattice(3);
    assert_eq!(l.cell_origin(0), 0);
    assert_eq!(l.cell_origin(2), 2);
    assert_eq!(l.cell_origin(3), 2);
}

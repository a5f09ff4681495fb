use sym_matrix::{ConstMatrix, Matrix, MatrixPacked, Symmetry, VecMatrix};

fn written(m: &VecMatrix<u8>, value: u8) -> Vec<(usize, usize)> {
    let mut out = Vec::new();
    for y in 0..m.height() {
        for x in 0..m.width() {
            if m.index((x, y)) == value {
                out.push((x, y));
            }
        }
    }
    out
}

#[test]
fn sym_x_mirrors_column() {
    let mut m = VecMatrix::new(5, 5, 0u8);
    m.set_at_index_sym(Symmetry::X, (1, 1), 9);
    assert_eq!(written(&m, 9), vec![(1, 1), (3, 1)]);
    assert_eq!(written(&m, 0).len(), 23);
}

#[test]
fn sym_y_mirrors_row() {
    let mut m = VecMatrix::new(5, 4, 0u8);
    m.set_at_index_sym(Symmetry::Y, (1, 0), 9);
    assert_eq!(written(&m, 9), vec![(1, 0), (1, 3)]);
}

#[test]
fn sym_xy_writes_four_corners() {
    let mut m = VecMatrix::new(5, 5, 0u8);
    m.set_at_index_sym(Symmetry::XY, (0, 1), 4);
    assert_eq!(written(&m, 4), vec![(0, 1), (4, 1), (0, 3), (4, 3)]);
}

#[test]
fn sym_rot180_on_four_by_four() {
    let mut m = VecMatrix::new(4, 4, 0u8);
    m.set_at_index_sym(Symmetry::ROT180, (0, 0), 5);
    assert_eq!(written(&m, 5), vec![(0, 0), (3, 3)]);
    assert_eq!(written(&m, 0).len(), 14);
}

#[test]
fn sym_rot90_writes_four_rotations() {
    let mut m = VecMatrix::new(5, 5, 0u8);
    m.set_at_index_sym(Symmetry::ROT90, (1, 0), 8);
    assert_eq!(written(&m, 8), vec![(1, 0), (4, 1), (0, 3), (3, 4)]);
}

#[test]
fn sym_rot90_skips_rotations_out_of_range() {
    let mut m = VecMatrix::new(6, 3, 0u8);
    m.set_at_index_sym(Symmetry::ROT90, (5, 0), 8);
    assert_eq!(written(&m, 8), vec![(5, 0), (0, 2)]);
}

#[test]
fn donut_border_ring() {
    let mut m = VecMatrix::new(5, 5, 0u8);
    m.donut(0..=0, 7);
    for y in 0..5 {
        for x in 0..5 {
            let border = x == 0 || y == 0 || x == 4 || y == 4;
            assert_eq!(m.index((x, y)), if border { 7 } else { 0 });
        }
    }
    assert_eq!(written(&m, 7).len(), 16);
}

#[test]
fn donut_inner_ring_on_packed() {
    let mut m = MatrixPacked::new(5, 5, 0);
    m.donut(1..=1, 1);
    for y in 0..5 {
        for x in 0..5 {
            let ring = (1..=3).contains(&x) && (1..=3).contains(&y) && !(x == 2 && y == 2);
            assert_eq!(m.index((x, y)), if ring { 1 } else { 0 });
        }
    }
}

#[test]
fn donut_on_tall_grid_leaves_lower_rows() {
    let mut m = VecMatrix::new(3, 5, 0u8);
    m.donut(0..=1, 2);
    for y in 0..5 {
        for x in 0..3 {
            assert_eq!(m.index((x, y)), if y < 3 { 2 } else { 0 });
        }
    }
}

#[test]
fn sym_donut_fills_the_ring_of_the_cell() {
    let mut m = VecMatrix::new(7, 7, 0u8);
    m.set_at_index_sym(Symmetry::DONUT, (2, 5), 3);
    let ring = written(&m, 3);
    assert_eq!(ring.len(), 16);
    assert!(ring.contains(&(1, 1)));
    assert!(ring.contains(&(5, 5)));
    assert!(!ring.contains(&(3, 3)));
}

#[test]
fn sym_agrees_across_backends() {
    let syms = [
        Symmetry::X,
        Symmetry::Y,
        Symmetry::XY,
        Symmetry::ROT90,
        Symmetry::ROT180,
        Symmetry::DONUT,
    ];
    for sym in syms {
        let mut v = VecMatrix::new(5, 5, 0u8);
        let mut c = ConstMatrix::<u8, 5, 5>::new(5, 5, 0);
        let mut p = MatrixPacked::new(5, 5, 0);
        v.set_at_index_sym(sym, (1, 2), 6);
        c.set_at_index_sym(sym, (1, 2), 6);
        p.set_at_index_sym(sym, (1, 2), 6);
        for y in 0..5 {
            for x in 0..5 {
                assert_eq!(v.index((x, y)), c.index((x, y)));
                assert_eq!(v.index((x, y)), p.index((x, y)));
            }
        }
    }
}

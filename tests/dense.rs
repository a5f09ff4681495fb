use sym_matrix::{ConstMatrix, Matrix, MatrixDefault, MatrixPacked, MatrixRandom, MatrixStdConv, VecMatrix};

fn gen(ix: (usize, usize)) -> u8 {
    (ix.0 * 7 + ix.1 * 3) as u8
}

#[test]
fn set_then_index_on_every_backend() {
    let mut v = VecMatrix::new(6, 4, 1u8);
    let mut c = ConstMatrix::<u8, 4, 6>::new(6, 4, 1);
    let mut p = MatrixPacked::new(6, 4, 1);
    v.set_at_index((5, 2), 42);
    c.set_at_index((5, 2), 42);
    p.set_at_index((5, 2), 42);
    for y in 0..4 {
        for x in 0..6 {
            let expected = if (x, y) == (5, 2) { 42 } else { 1 };
            assert_eq!(v.index((x, y)), expected);
            assert_eq!(c.index((x, y)), expected);
            assert_eq!(p.index((x, y)), expected);
        }
    }
}

#[test]
fn new_fills_every_backend() {
    let v = VecMatrix::new(3, 5, 9i32);
    let c = ConstMatrix::<i32, 5, 3>::new(3, 5, 9);
    for y in 0..5 {
        for x in 0..3 {
            assert_eq!(v.index((x, y)), 9);
            assert_eq!(c.index((x, y)), 9);
        }
    }
    assert_eq!(v.width(), 3);
    assert_eq!(v.height(), 5);
    assert_eq!(c.width(), 3);
    assert_eq!(c.height(), 5);
}

#[test]
fn new_with_agrees_across_backends() {
    let v = VecMatrix::new_with(9, 5, gen);
    let c = ConstMatrix::<u8, 5, 9>::new_with(9, 5, gen);
    let p = MatrixPacked::new_with(9, 5, gen);
    for y in 0..5 {
        for x in 0..9 {
            assert_eq!(v.index((x, y)), gen((x, y)));
            assert_eq!(c.index((x, y)), gen((x, y)));
            assert_eq!(p.index((x, y)), gen((x, y)));
        }
    }
    assert_eq!(v.data()[8 + 4 * 9], gen((8, 4)));
    assert_eq!(c.data[4][8], gen((8, 4)));
}

#[test]
fn std_conv_matrix_on_every_backend() {
    let v: VecMatrix<i32> = VecMatrix::new_std_conv_matrix(3, 3);
    let c: ConstMatrix<u16, 3, 3> = ConstMatrix::new_std_conv_matrix(3, 3);
    for y in 0..3 {
        for x in 0..3 {
            let expected = if (x, y) == (1, 1) { 0 } else { 1 };
            assert_eq!(v.index((x, y)), expected);
            assert_eq!(c.index((x, y)), expected as u16);
        }
    }
    let v: VecMatrix<u8> = VecMatrix::new_std_conv_matrix(4, 3);
    let c: ConstMatrix<u8, 3, 4> = ConstMatrix::new_std_conv_matrix(4, 3);
    for y in 0..3 {
        for x in 0..4 {
            let expected = if (x, y) == (2, 1) { 0 } else { 1 };
            assert_eq!(v.index((x, y)), expected);
            assert_eq!(c.index((x, y)), expected);
        }
    }
}

#[test]
fn default_fill_is_zero() {
    let v: VecMatrix<u64> = VecMatrix::new_default(4, 2);
    let c: ConstMatrix<i8, 2, 4> = ConstMatrix::new_default(4, 2);
    for y in 0..2 {
        for x in 0..4 {
            assert_eq!(v.index((x, y)), 0);
            assert_eq!(c.index((x, y)), 0);
        }
    }
}

#[test]
fn random_range_is_inclusive() {
    quad_rand::srand(11);
    let v: VecMatrix<u8> = VecMatrix::new_random_range(8, 8, 5..=5);
    let c: ConstMatrix<u8, 8, 8> = ConstMatrix::new_random_range(8, 8, 5..=5);
    for y in 0..8 {
        for x in 0..8 {
            assert_eq!(v.index((x, y)), 5);
            assert_eq!(c.index((x, y)), 5);
        }
    }
    let v: VecMatrix<u8> = VecMatrix::new_random_range(16, 16, 0..=1);
    assert!(v.data().iter().all(|&b| b <= 1));
    let v: VecMatrix<u8> = VecMatrix::new_random(4, 6);
    assert_eq!(v.data().len(), 24);
    let c: ConstMatrix<u8, 2, 2> = ConstMatrix::new_random(2, 2);
    assert_eq!(c.width(), 2);
}

#[test]
fn clear_overwrites_every_cell() {
    let mut v = VecMatrix::new_with(5, 3, gen);
    v.clear(200);
    let mut c = ConstMatrix::<u8, 3, 5>::new_with(5, 3, gen);
    c.clear(200);
    for y in 0..3 {
        for x in 0..5 {
            assert_eq!(v.index((x, y)), 200);
            assert_eq!(c.index((x, y)), 200);
        }
    }
}

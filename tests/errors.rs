use sym_matrix::{ConstMatrix, GridError, Matrix, MatrixPacked, VecMatrix};

#[test]
fn checked_index_reports_out_of_range() {
    let v = VecMatrix::new(4, 3, 6u8);
    assert_eq!(v.checked_index((3, 2)), Ok(6));
    assert_eq!(v.checked_index((4, 0)), Err(GridError::IndexOutOfRange));
    assert_eq!(v.checked_index((0, 3)), Err(GridError::IndexOutOfRange));
    let p = MatrixPacked::new(4, 3, 6);
    assert_eq!(p.checked_index((4, 0)), Err(GridError::IndexOutOfRange));
}

#[test]
fn checked_set_leaves_grid_alone_when_out_of_range() {
    let mut c = ConstMatrix::<u8, 2, 2>::new(2, 2, 1);
    assert_eq!(c.checked_set_at_index((2, 0), 9), Err(GridError::IndexOutOfRange));
    assert_eq!(c.data, [[1, 1], [1, 1]]);
    assert_eq!(c.checked_set_at_index((1, 0), 9), Ok(()));
    assert_eq!(c.data, [[1, 9], [1, 1]]);
}

#[test]
fn packed_try_new_rejects_empty_dimensions() {
    assert_eq!(MatrixPacked::try_new(0, 5, 1).err(), Some(GridError::InvalidDimensions));
    assert_eq!(MatrixPacked::try_new(5, 0, 1).err(), Some(GridError::InvalidDimensions));
    assert_eq!(
        MatrixPacked::try_new(usize::MAX, 2, 1).err(),
        Some(GridError::InvalidDimensions)
    );
    let p = MatrixPacked::try_new(3, 2, 4).unwrap();
    assert_eq!(p.index((2, 1)), 4);
}

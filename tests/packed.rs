use sym_matrix::matrix_packed::pack_lanes;
use sym_matrix::{Matrix, MatrixPacked, MatrixRandom, MatrixStdConv};

#[test]
fn test_set_at_index() {
    let width = 127;
    let height = 123;
    let mut mp = MatrixPacked::new(width, height, 0);
    for ixy in 0..width {
        for ixx in 0..height {
            println!("ixx: {ixx}, ixy: {ixy}");
            mp.set_at_index((ixx, ixy), ixx as u8 + ixy as u8);
            assert_eq!(mp.index((ixx, ixy)), ixx as u8 + ixy as u8);
        }
    }
    for ixy in 0..width {
        for ixx in 0..height {
            mp.set_at_index((ixx, ixy), 0x0F);
        }
    }
    for ixy in 0..width {
        for ixx in 0..height {
            assert_eq!(mp.index((ixx, ixy)), 0x0F);
        }
    }
    for ixy in 0..width {
        for ixx in 0..height {
            mp.set_at_index((ixx, ixy), 0x3A);
        }
    }
    for ixy in 0..width {
        for ixx in 0..height {
            assert_eq!(mp.index((ixx, ixy)), 0x3A);
        }
    }
}

#[test]
fn packed_round_trip_every_cell() {
    let (width, height) = (127usize, 123usize);
    let mut mp = MatrixPacked::new(width, height, 0);
    for y in 0..height {
        for x in 0..width {
            mp.set_at_index((x, y), ((x + y) % 256) as u8);
        }
    }
    for y in 0..height {
        for x in 0..width {
            assert_eq!(mp.index((x, y)), ((x + y) % 256) as u8);
        }
    }
}

#[test]
fn packed_overwrite_clears_old_bits() {
    let (width, height) = (19usize, 21usize);
    let mut mp = MatrixPacked::new(width, height, 0xFF);
    for y in 0..height {
        for x in 0..width {
            mp.set_at_index((x, y), 0xA5);
        }
    }
    for y in 0..height {
        for x in 0..width {
            assert_eq!(mp.index((x, y)), 0xA5);
        }
    }
    mp.clear(0x00);
    for y in 0..height {
        for x in 0..width {
            assert_eq!(mp.index((x, y)), 0x00);
        }
    }
}

#[test]
fn packed_wide_grid_keeps_tiles_apart() {
    let (width, height) = (40usize, 9usize);
    let mut mp = MatrixPacked::new(width, height, 0);
    for y in 0..height {
        for x in 0..width {
            mp.set_at_index((x, y), (x * 3 + y * 50) as u8);
        }
    }
    for y in 0..height {
        for x in 0..width {
            assert_eq!(mp.index((x, y)), (x * 3 + y * 50) as u8);
        }
    }
    assert_eq!(mp.tile_count(), 10);
}

#[test]
fn packed_new_fills_every_lane() {
    let mp = MatrixPacked::new(13, 10, 0x7E);
    assert_eq!(mp.width(), 13);
    assert_eq!(mp.height(), 10);
    for y in 0..10 {
        for x in 0..13 {
            assert_eq!(mp.index((x, y)), 0x7E);
        }
    }
}

#[test]
fn packed_std_conv_center_is_zero() {
    let mp = MatrixPacked::new_std_conv_matrix(11, 9);
    for y in 0..9 {
        for x in 0..11 {
            let expected = if x == 5 && y == 4 { 0 } else { 1 };
            assert_eq!(mp.index((x, y)), expected);
        }
    }
}

#[test]
fn pack_lanes_first_byte_is_most_significant() {
    assert_eq!(pack_lanes([1, 2, 3, 4, 5, 6, 7, 8]), 0x0102030405060708);
    assert_eq!(pack_lanes([0xFF, 0, 0, 0, 0, 0, 0, 0x11]), 0xFF00000000000011);
}

#[test]
fn packed_random_range_stays_in_range() {
    quad_rand::srand(7);
    let mp = MatrixPacked::new_random_range(20, 17, 3..=3);
    for y in 0..17 {
        for x in 0..20 {
            assert_eq!(mp.index((x, y)), 3);
        }
    }
    let mp = MatrixPacked::new_random_range(20, 17, 250..=255);
    for y in 0..17 {
        for x in 0..20 {
            assert!(mp.index((x, y)) >= 250);
        }
    }
    let mp = MatrixPacked::new_random(9, 9);
    assert_eq!(mp.width(), 9);
    assert_eq!(mp.height(), 9);
}

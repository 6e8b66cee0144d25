use forest_fire::cell::Cell;
use forest_fire::grid::{cartesian_to_linear, field_side, linear_to_cartesian};

fn field_of(len: usize) -> Vec<Cell> {
    vec![Cell::new(); len]
}

#[test]
fn side_is_the_integer_square_root() {
    assert_eq!(field_side(0), 0);
    assert_eq!(field_side(1), 1);
    assert_eq!(field_side(2), 1);
    assert_eq!(field_side(3), 1);
    assert_eq!(field_side(4), 2);
    assert_eq!(field_side(8), 2);
    assert_eq!(field_side(9), 3);
    assert_eq!(field_side(15), 3);
    assert_eq!(field_side(16), 4);
    assert_eq!(field_side(3600), 60);
    assert_eq!(field_side(3599), 59);
}

#[test]
fn side_of_large_lengths_is_exact() {
    assert_eq!(field_side(16_777_216), 4096);
    assert_eq!(field_side(16_777_215), 4095);
    assert_eq!(field_side(1_000_000_007), 31_622);
    assert_eq!(field_side(4_294_836_225), 65_535);
    assert_eq!(field_side(4_294_836_224), 65_534);
    let top = field_side(usize::MAX) as u128;
    assert!(top * top <= usize::MAX as u128);
    assert!((top + 1) * (top + 1) > usize::MAX as u128);
}

#[test]
fn side_brackets_every_small_length() {
    for len in 0..2000usize {
        let side = field_side(len);
        assert!(side * side <= len);
        assert!(len < (side + 1) * (side + 1));
    }
}

#[test]
fn linear_index_is_row_times_side_plus_column() {
    let field = field_of(9);
    assert_eq!(cartesian_to_linear(0, 0, &field), Ok(0));
    assert_eq!(cartesian_to_linear(1, 0, &field), Ok(1));
    assert_eq!(cartesian_to_linear(0, 1, &field), Ok(3));
    assert_eq!(cartesian_to_linear(1, 2, &field), Ok(7));
    assert_eq!(cartesian_to_linear(2, 1, &field), Ok(5));
    assert_eq!(cartesian_to_linear(2, 2, &field), Ok(8));
}

#[test]
fn coordinates_off_the_grid_are_refused() {
    let field = field_of(9);
    assert_eq!(cartesian_to_linear(3, 0, &field), Err("Out of Bounds (C2L)"));
    assert_eq!(cartesian_to_linear(0, 3, &field), Err("Out of Bounds (C2L)"));
    assert_eq!(cartesian_to_linear(3, 3, &field), Err("Out of Bounds (C2L)"));
    assert_eq!(cartesian_to_linear(usize::MAX, 0, &field), Err("Out of Bounds (C2L)"));
    assert_eq!(cartesian_to_linear(0, usize::MAX, &field), Err("Out of Bounds (C2L)"));
}

#[test]
fn coordinates_are_remainder_and_quotient() {
    let field = field_of(9);
    assert_eq!(linear_to_cartesian(0, &field), Ok((0, 0)));
    assert_eq!(linear_to_cartesian(1, &field), Ok((1, 0)));
    assert_eq!(linear_to_cartesian(3, &field), Ok((0, 1)));
    assert_eq!(linear_to_cartesian(5, &field), Ok((2, 1)));
    assert_eq!(linear_to_cartesian(7, &field), Ok((1, 2)));
    assert_eq!(linear_to_cartesian(8, &field), Ok((2, 2)));
}

#[test]
fn index_beyond_the_field_is_refused() {
    let field = field_of(9);
    assert_eq!(linear_to_cartesian(9, &field), Err("Out of Bounds (L2C)"));
    assert_eq!(linear_to_cartesian(usize::MAX, &field), Err("Out of Bounds (L2C)"));
}

#[test]
fn empty_field_has_no_coordinates() {
    let field = field_of(0);
    assert_eq!(linear_to_cartesian(0, &field), Err("Out of Bounds (L2C)"));
    assert_eq!(cartesian_to_linear(0, 0, &field), Err("Out of Bounds (C2L)"));
}

#[test]
fn index_round_trip_on_a_square_field() {
    let field = field_of(25);
    for i in 0..25 {
        let (x, y) = linear_to_cartesian(i, &field).unwrap();
        assert!(x < 5 && y < 5);
        assert_eq!(cartesian_to_linear(x, y, &field), Ok(i));
    }
}

#[test]
fn coordinate_round_trip_on_a_square_field() {
    let field = field_of(25);
    for x in 0..5 {
        for y in 0..5 {
            let i = cartesian_to_linear(x, y, &field).unwrap();
            assert_eq!(i, y * 5 + x);
            assert_eq!(linear_to_cartesian(i, &field), Ok((x, y)));
        }
    }
}

#[test]
fn trailing_cells_of_a_field_that_is_no_square_are_off_the_grid() {
    let field = field_of(5);
    assert_eq!(field_side(5), 2);
    assert_eq!(linear_to_cartesian(3, &field), Ok((1, 1)));
    assert_eq!(linear_to_cartesian(4, &field), Ok((0, 2)));
    assert_eq!(cartesian_to_linear(0, 2, &field), Err("Out of Bounds (C2L)"));
    for i in 0..4 {
        let (x, y) = linear_to_cartesian(i, &field).unwrap();
        assert_eq!(cartesian_to_linear(x, y, &field), Ok(i));
    }
}

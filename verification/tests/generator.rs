use forest_fire::cell::{Cell, CellType};
use forest_fire::census::{count_cells, get_stats, Stats};
use forest_fire::generator::{
    get_empty_field, get_random_field, plant, rnd_fill_empty, vacant_at, AGE_BOUND, MAX_DRAWS,
};
use rand::{Rng, SeedableRng};
use rand_chacha::ChaCha8Rng;

#[test]
fn empty_field_of_three() {
    let field = get_empty_field(3);
    assert_eq!(field.len(), 9);
    for cell in field.iter() {
        assert_eq!(cell.cell_type, CellType::Empty);
        assert_eq!(cell.age, 0);
        assert_eq!(cell.propagation, 1);
    }
}

#[test]
fn empty_field_has_size_squared_fresh_cells() {
    for size in 0..12usize {
        let field = get_empty_field(size);
        assert_eq!(field, vec![Cell::new(); size * size]);
    }
}

#[test]
fn sampler_limits() {
    assert_eq!(AGE_BOUND, 10);
    assert_eq!(MAX_DRAWS, u64::MAX);
}

#[test]
fn vacant_cells_are_empty_cells_on_the_grid() {
    let mut field = get_empty_field(3);
    field[5] = Cell { age: 1, cell_type: CellType::Tree, propagation: 1 };
    assert_eq!(vacant_at(&field, 1, 2), Some(7));
    assert_eq!(vacant_at(&field, 0, 0), Some(0));
    assert_eq!(vacant_at(&field, 2, 1), None);
    assert_eq!(vacant_at(&field, 3, 0), None);
    assert_eq!(vacant_at(&field, 0, 3), None);
}

#[test]
fn planting_sets_type_and_age_and_keeps_the_leave_to_spread() {
    let mut field = get_empty_field(3);
    field[2].propagation = 0;
    plant(&mut field, 4, CellType::Tree, 0);
    plant(&mut field, 2, CellType::Flame, 6);
    let mut expected = get_empty_field(3);
    expected[4] = Cell { age: 0, cell_type: CellType::Tree, propagation: 1 };
    expected[2] = Cell { age: 6, cell_type: CellType::Flame, propagation: 0 };
    assert_eq!(field, expected);
}

#[test]
fn fill_places_the_count_asked_for() {
    let empty = get_empty_field(6);
    for count in [0usize, 1, 5, 17, 36] {
        let filled = rnd_fill_empty(&empty, count, CellType::Grass);
        assert_eq!(filled.len(), 36);
        assert_eq!(count_cells(&filled, CellType::Grass), count);
        assert_eq!(count_cells(&filled, CellType::Empty), 36 - count);
        for cell in filled.iter() {
            if cell.cell_type == CellType::Grass {
                assert!(cell.age < 10);
                assert_eq!(cell.propagation, 1);
            } else {
                assert_eq!(*cell, Cell::new());
            }
        }
    }
}

#[test]
fn fill_leaves_occupied_cells_alone() {
    let mut field = get_empty_field(4);
    for i in 0..16usize {
        if i % 2 == 0 {
            field[i] = Cell { age: 40 + i, cell_type: CellType::Tree, propagation: 0 };
        } else {
            field[i].propagation = 7;
        }
    }
    let filled = rnd_fill_empty(&field, 8, CellType::Flame);
    for i in 0..16usize {
        if i % 2 == 0 {
            assert_eq!(filled[i], field[i]);
        } else {
            assert_eq!(filled[i].cell_type, CellType::Flame);
            assert!(filled[i].age < 10);
            assert_eq!(filled[i].propagation, 7);
        }
    }
}

#[test]
fn fill_with_nothing_to_place_copies_the_field() {
    let field = vec![Cell { age: 3, cell_type: CellType::Tree, propagation: 1 }; 9];
    assert_eq!(rnd_fill_empty(&field, 0, CellType::Grass), field);
    let none: Vec<Cell> = Vec::new();
    assert_eq!(rnd_fill_empty(&none, 0, CellType::Grass), none);
}

#[test]
fn fill_keeps_off_the_trailing_cells() {
    let field = vec![Cell::new(); 7];
    let filled = rnd_fill_empty(&field, 4, CellType::Tree);
    assert_eq!(count_cells(&filled[..4], CellType::Tree), 4);
    assert_eq!(&filled[4..], &field[4..]);
}

#[test]
fn fill_is_reproducible() {
    let empty = get_empty_field(8);
    let first = rnd_fill_empty(&empty, 20, CellType::Tree);
    let second = rnd_fill_empty(&empty, 20, CellType::Tree);
    assert_eq!(first, second);
}

#[test]
fn fill_draws_column_row_and_then_the_age() {
    let side = 7usize;
    let count = 30usize;
    let mut expected = get_empty_field(side);
    let mut rng = ChaCha8Rng::seed_from_u64(0);
    let mut to_fill = count;
    while to_fill > 0 {
        let x = rng.gen_range(0..side);
        let y = rng.gen_range(0..side);
        let index = y * side + x;
        if expected[index].cell_type == CellType::Empty {
            expected[index].cell_type = CellType::Flame;
            expected[index].age = rng.gen_range(0..10);
            to_fill -= 1;
        }
    }
    assert_eq!(rnd_fill_empty(&get_empty_field(side), count, CellType::Flame), expected);
}

#[test]
fn random_field_holds_the_counts_asked_for() {
    let field = get_random_field(10, 20, 10, 5);
    assert_eq!(field.len(), 100);
    assert_eq!(get_stats(&field), Stats { empty: 65, grass: 20, trees: 10, flames: 5 });
    for cell in field.iter() {
        if cell.cell_type == CellType::Empty {
            assert_eq!(*cell, Cell::new());
        } else {
            assert!(cell.age < 10);
            assert_eq!(cell.propagation, 1);
        }
    }
}

#[test]
fn random_field_can_be_full() {
    let field = get_random_field(5, 10, 10, 5);
    assert_eq!(get_stats(&field), Stats { empty: 0, grass: 10, trees: 10, flames: 5 });
}

#[test]
fn random_field_with_nothing_asked_for_is_empty() {
    assert_eq!(get_random_field(4, 0, 0, 0), get_empty_field(4));
    assert_eq!(get_random_field(0, 0, 0, 0), Vec::new());
}

#[test]
fn random_field_is_three_fills_in_turn() {
    let grass = rnd_fill_empty(&get_empty_field(6), 7, CellType::Grass);
    let trees = rnd_fill_empty(&grass, 5, CellType::Tree);
    let flames = rnd_fill_empty(&trees, 3, CellType::Flame);
    assert_eq!(get_random_field(6, 7, 5, 3), flames);
}

#[test]
fn every_pass_starts_the_stream_anew() {
    // the first cell that grass takes is the first that trees would take
    let empty = get_empty_field(9);
    let one_grass = rnd_fill_empty(&empty, 1, CellType::Grass);
    let one_tree = rnd_fill_empty(&empty, 1, CellType::Tree);
    let at = one_grass.iter().position(|c| c.cell_type == CellType::Grass).unwrap();
    assert_eq!(one_tree[at].cell_type, CellType::Tree);
    assert_eq!(one_tree[at].age, one_grass[at].age);
}

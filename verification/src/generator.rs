//! Making fields: an empty one, and one seeded at random with flora and fire.

use vstd::prelude::*;
use vstd::slice::slice_to_vec;
use crate::cell::{Cell, CellType};
use crate::census::{
    count_in,
    count_of,
    lemma_count_in_all,
    lemma_count_in_update,
    lemma_counts_add_up,
};
use crate::grid::{
    cartesian_to_linear,
    field_side,
    lemma_linear_index_in_field,
    lemma_side_of,
    lemma_side_of_square,
    linear_index,
    on_grid,
    side_of,
};
use crate::rng::{draw_below, seeded_rng, SEED};

verus! {

/// A cell seeded at random gets an age below this.
pub const AGE_BOUND: usize = 10;

/// The sampler stops after this many draws of coordinates, whether or not it
/// has placed all that was asked for.
pub const MAX_DRAWS: u64 = 0xffff_ffff_ffff_ffff;

/// One draw of the sampler: a column and a row, and the age that the cell
/// gets if the draw is accepted.
pub struct Attempt {
    pub x: usize,
    pub y: usize,
    pub age: usize,
}

/// The empty field of `size * size` cells.
pub open spec fn empty_field(size: nat) -> Seq<Cell> {
    Seq::new(size * size, |i: int| Cell::fresh())
}

/// How many cells on the grid of `field` are empty: the room that the
/// sampler has.
pub open spec fn vacancies(field: Seq<Cell>) -> nat {
    count_in(field, CellType::Empty, side_of(field.len()) * side_of(field.len()))
}

/// The index of the cell at column `x` of row `y`, if it is on the grid and
/// empty.
pub open spec fn vacant_index(field: Seq<Cell>, x: int, y: int) -> Option<int> {
    match linear_index(x, y, field.len()) {
        Some(i) => if field[i].cell_type == CellType::Empty {
            Some(i)
        } else {
            None
        },
        None => None,
    }
}

/// The field after cell `i` has been given the type `kind` and the age
/// `age`. Whether the cell may spread is left as it was.
pub open spec fn planted(field: Seq<Cell>, i: int, kind: CellType, age: usize) -> Seq<Cell> {
    field.update(i, Cell { age, cell_type: kind, propagation: field[i].propagation })
}

/// What one draw makes of a field and of the number of cells still to place:
/// a draw that hits an empty cell plants there, any other is discarded, and
/// nothing happens once all cells are placed.
pub open spec fn fill_step(state: (Seq<Cell>, nat), kind: CellType, attempt: Attempt) -> (
    Seq<Cell>,
    nat,
) {
    if state.1 == 0 {
        state
    } else {
        match vacant_index(state.0, attempt.x as int, attempt.y as int) {
            Some(i) => (planted(state.0, i, kind, attempt.age), (state.1 - 1) as nat),
            None => state,
        }
    }
}

/// The field, and the number of cells still to place, after the sampler has
/// worked through `attempts` in order, starting with `count` cells to place.
pub open spec fn fill_along(
    field: Seq<Cell>,
    count: nat,
    kind: CellType,
    attempts: Seq<Attempt>,
) -> (Seq<Cell>, nat)
    decreases attempts.len(),
{
    if attempts.len() == 0 {
        (field, count)
    } else {
        fill_step(fill_along(field, count, kind, attempts.drop_last()), kind, attempts.last())
    }
}

/// Every draw is one that the sampler can make on a field of `len` cells:
/// coordinates below the side, an age below `AGE_BOUND`.
pub open spec fn legal_attempts(attempts: Seq<Attempt>, len: nat) -> bool {
    forall|k: int|
        0 <= k < attempts.len() ==> {
            &&& (#[trigger] attempts[k]).x < side_of(len)
            &&& attempts[k].y < side_of(len)
            &&& attempts[k].age < AGE_BOUND
        }
}

/// `after` is what the sampler makes of `before` along `attempts`, when asked
/// for `count` cells of type `kind`: it has placed them all, or has used up
/// its draws.
pub open spec fn sampled_along(
    before: Seq<Cell>,
    count: nat,
    kind: CellType,
    attempts: Seq<Attempt>,
    after: Seq<Cell>,
) -> bool {
    &&& attempts.len() <= MAX_DRAWS
    &&& legal_attempts(attempts, before.len())
    &&& after == fill_along(before, count, kind, attempts).0
    &&& (fill_along(before, count, kind, attempts).1 == 0 || attempts.len() == MAX_DRAWS)
}

/// `after` is what some run of the sampler makes of `before`.
pub open spec fn sampled(before: Seq<Cell>, count: nat, kind: CellType, after: Seq<Cell>) -> bool {
    exists|attempts: Seq<Attempt>| #[trigger] sampled_along(before, count, kind, attempts, after)
}

/// `field` is what three runs of the sampler make of the empty field of
/// `size * size` cells: the first for grass, the second for trees, the third
/// for flames.
pub open spec fn seeded(size: nat, grass: nat, trees: nat, flames: nat, field: Seq<Cell>) -> bool {
    exists|with_grass: Seq<Cell>, with_trees: Seq<Cell>|
        {
            &&& #[trigger] sampled(empty_field(size), grass, CellType::Grass, with_grass)
            &&& #[trigger] sampled(with_grass, trees, CellType::Tree, with_trees)
            &&& sampled(with_trees, flames, CellType::Flame, field)
        }
}

/// A cell as the generator leaves it: a fresh empty cell, or grass, a tree or
/// a flame of an age below `AGE_BOUND` that is free to spread.
pub open spec fn seeded_cell(cell: Cell) -> bool {
    ||| cell == Cell::fresh()
    ||| cell.cell_type != CellType::Empty && cell.age < AGE_BOUND && cell.propagation == 1
}

/// What the sampler does to a field, whatever it draws: the length stays,
/// no more cells are left to place than were asked for, and every cell is as
/// it was or was an empty cell of the grid and now has the type `kind`, an
/// age below `AGE_BOUND` and its old leave to spread.
pub proof fn lemma_fill_along(
    field: Seq<Cell>,
    count: nat,
    kind: CellType,
    attempts: Seq<Attempt>,
)
    requires
        legal_attempts(attempts, field.len()),
    ensures
        fill_along(field, count, kind, attempts).0.len() == field.len(),
        fill_along(field, count, kind, attempts).1 <= count,
        forall|i: int|
            0 <= i < field.len() ==> {
                let now = #[trigger] fill_along(field, count, kind, attempts).0[i];
                ||| now == field[i]
                ||| {
                    &&& field[i].cell_type == CellType::Empty
                    &&& on_grid(i, field.len())
                    &&& now.cell_type == kind
                    &&& now.age < AGE_BOUND
                    &&& now.propagation == field[i].propagation
                }
            },
    decreases attempts.len(),
{
    if attempts.len() > 0 {
        let earlier = attempts.drop_last();
        lemma_fill_along(field, count, kind, earlier);
        let state = fill_along(field, count, kind, earlier);
        let last = attempts.last();
        lemma_linear_index_in_field(last.x as int, last.y as int, field.len());
    }
}

/// What the sampler does to the counts, whatever it draws: each cell that it
/// has placed has taken one vacancy, unless empty cells were asked for.
pub proof fn lemma_fill_along_vacancies(
    field: Seq<Cell>,
    count: nat,
    kind: CellType,
    attempts: Seq<Attempt>,
)
    requires
        legal_attempts(attempts, field.len()),
    ensures
        fill_along(field, count, kind, attempts).1 <= count,
        kind != CellType::Empty ==> vacancies(fill_along(field, count, kind, attempts).0) + count
            == vacancies(field) + fill_along(field, count, kind, attempts).1,
        kind == CellType::Empty ==> vacancies(fill_along(field, count, kind, attempts).0)
            == vacancies(field),
    decreases attempts.len(),
{
    if attempts.len() > 0 {
        let earlier = attempts.drop_last();
        lemma_fill_along(field, count, kind, earlier);
        lemma_fill_along_vacancies(field, count, kind, earlier);
        let state = fill_along(field, count, kind, earlier);
        let last = attempts.last();
        lemma_linear_index_in_field(last.x as int, last.y as int, field.len());
        if state.1 > 0 {
            if let Some(i) = vacant_index(state.0, last.x as int, last.y as int) {
                lemma_plant_vacancies(state.0, i, kind, last.age);
            }
        }
    }
}

/// Planting on an empty cell of the grid takes one vacancy, unless what is
/// planted is empty itself.
pub proof fn lemma_plant_vacancies(field: Seq<Cell>, i: int, kind: CellType, age: usize)
    requires
        on_grid(i, field.len()),
        i < field.len(),
        field[i].cell_type == CellType::Empty,
    ensures
        planted(field, i, kind, age).len() == field.len(),
        kind != CellType::Empty ==> vacancies(planted(field, i, kind, age)) + 1 == vacancies(
            field,
        ),
        kind == CellType::Empty ==> vacancies(planted(field, i, kind, age)) == vacancies(field),
{
    let side = side_of(field.len());
    let cell = Cell { age, cell_type: kind, propagation: field[i].propagation };
    assert(side * side <= field.len()) by {
        lemma_side_of(field.len());
    }
    lemma_count_in_update(field, CellType::Empty, side * side, i, cell);
}

/// What the sampler does to the census, whatever it draws: each cell that it
/// has placed is one more of type `kind`, and the count of any type other
/// than `kind` and `Empty` stays. Where empty cells were asked for, every
/// count stays.
pub proof fn lemma_fill_along_census(
    field: Seq<Cell>,
    count: nat,
    kind: CellType,
    attempts: Seq<Attempt>,
    other: CellType,
)
    requires
        legal_attempts(attempts, field.len()),
    ensures
        fill_along(field, count, kind, attempts).1 <= count,
        kind != CellType::Empty ==> count_of(fill_along(field, count, kind, attempts).0, kind)
            + fill_along(field, count, kind, attempts).1 == count_of(field, kind) + count,
        other != CellType::Empty && other != kind || kind == CellType::Empty ==> count_of(
            fill_along(field, count, kind, attempts).0,
            other,
        ) == count_of(field, other),
    decreases attempts.len(),
{
    if attempts.len() > 0 {
        let earlier = attempts.drop_last();
        lemma_fill_along(field, count, kind, earlier);
        lemma_fill_along_census(field, count, kind, earlier, other);
        let state = fill_along(field, count, kind, earlier);
        let last = attempts.last();
        lemma_linear_index_in_field(last.x as int, last.y as int, field.len());
        if state.1 > 0 {
            if let Some(i) = vacant_index(state.0, last.x as int, last.y as int) {
                let cell = Cell { age: last.age, cell_type: kind, propagation: state.0[i].propagation };
                lemma_count_in_update(state.0, kind, state.0.len(), i, cell);
                lemma_count_in_update(state.0, other, state.0.len(), i, cell);
            }
        }
    }
}

/// What holds of every run of the sampler: the length stays, and every cell
/// is as it was or was an empty cell of the grid and now has the type `kind`,
/// an age below `AGE_BOUND` and its old leave to spread.
///
/// Where `kind` is not `Empty`, at most `count` vacancies are taken, as many
/// cells of type `kind` are new, and the count of every other type but
/// `Empty` stays. Where it is `Empty`, every count stays.
pub proof fn lemma_sampled(before: Seq<Cell>, count: nat, kind: CellType, after: Seq<Cell>)
    requires
        sampled(before, count, kind, after),
    ensures
        after.len() == before.len(),
        forall|i: int|
            0 <= i < before.len() ==> {
                ||| (#[trigger] after[i]) == before[i]
                ||| {
                    &&& before[i].cell_type == CellType::Empty
                    &&& on_grid(i, before.len())
                    &&& after[i].cell_type == kind
                    &&& after[i].age < AGE_BOUND
                    &&& after[i].propagation == before[i].propagation
                }
            },
        kind != CellType::Empty ==> {
            &&& vacancies(before) <= vacancies(after) + count
            &&& count_of(before, kind) <= count_of(after, kind) <= count_of(before, kind) + count
            &&& vacancies(before) - vacancies(after) == count_of(after, kind) - count_of(
                before,
                kind,
            )
        },
        kind == CellType::Empty ==> vacancies(after) == vacancies(before),
        forall|other: CellType|
            other != CellType::Empty && other != kind || kind == CellType::Empty
                ==> #[trigger] count_of(after, other) == count_of(before, other),
{
    let attempts = choose|attempts: Seq<Attempt>|
        #[trigger] sampled_along(before, count, kind, attempts, after);
    lemma_fill_along(before, count, kind, attempts);
    lemma_fill_along_vacancies(before, count, kind, attempts);
    lemma_fill_along_census(before, count, kind, attempts, kind);
    assert forall|other: CellType|
        other != CellType::Empty && other != kind || kind == CellType::Empty implies #[trigger] count_of(
        after,
        other,
    ) == count_of(before, other) by {
        lemma_fill_along_census(before, count, kind, attempts, other);
    }
}

/// The empty field is all vacancies, and its side is `size`.
pub proof fn lemma_empty_field(size: nat)
    ensures
        side_of(empty_field(size).len()) == size,
        vacancies(empty_field(size)) == size * size,
{
    lemma_side_of_square(size);
    lemma_count_in_all(empty_field(size), CellType::Empty, size * size);
}

/// A field of `size * size` empty cells, each of age 0 and free to spread.
pub fn get_empty_field(size: usize) -> (field: Vec<Cell>)
    requires
        size * size <= usize::MAX,
    ensures
        field@ == empty_field(size as nat),
        field.len() == size * size,
        forall|i: int| 0 <= i < field.len() ==> #[trigger] field[i] == Cell::fresh(),
{
    let cells: usize = size * size;
    let mut field: Vec<Cell> = Vec::new();
    while field.len() < cells
        invariant
            field.len() <= cells,
            forall|i: int| 0 <= i < field.len() ==> #[trigger] field[i] == Cell::fresh(),
        decreases cells - field.len(),
    {
        field.push(Cell::new());
    }
    field
}

/// The index of the cell at column `x` of row `y`, if it is on the grid and
/// empty.
pub fn vacant_at(field: &Vec<Cell>, x: usize, y: usize) -> (r: Option<usize>)
    ensures
        match r {
            Some(i) => vacant_index(field@, x as int, y as int) == Some(i as int) && i
                < field.len(),
            None => vacant_index(field@, x as int, y as int) is None,
        },
{
    match cartesian_to_linear(x, y, field) {
        Ok(i) => if field[i].cell_type == CellType::Empty {
            Some(i)
        } else {
            None
        },
        Err(_) => None,
    }
}

/// Gives cell `index` the type `kind` and the age `age`. Whether the cell
/// may spread is left as it was.
pub fn plant(field: &mut Vec<Cell>, index: usize, kind: CellType, age: usize)
    requires
        index < old(field).len(),
    ensures
        final(field)@ == planted(old(field)@, index as int, kind, age),
{
    let propagation = field[index].propagation;
    field.set(index, Cell { age, cell_type: kind, propagation });
}

/// Seeds `count` empty cells of `field` with the type `cell_type` and an age
/// below `AGE_BOUND`, by rejection: it draws a column and a row from the
/// stream of `SEED`, plants if that cell is empty, and draws again if not.
///
/// The field must have room for `count` cells. The sampler gives up after
/// `MAX_DRAWS` draws of coordinates.
pub fn rnd_fill_empty(field: &[Cell], count: usize, cell_type: CellType) -> (filled: Vec<Cell>)
    requires
        count <= vacancies(field@),
    ensures
        sampled(field@, count as nat, cell_type, filled@),
        filled.len() == field.len(),
{
    let mut rng = seeded_rng(SEED);
    let mut filled = slice_to_vec(field);
    let side = field_side(filled.len());
    let mut to_fill: usize = count;
    let mut draws: u64 = 0;
    let ghost mut attempts: Seq<Attempt> = Seq::empty();
    while to_fill > 0 && draws < MAX_DRAWS
        invariant
            filled.len() == field.len(),
            side == side_of(field.len() as nat),
            attempts.len() == draws,
            draws <= MAX_DRAWS,
            legal_attempts(attempts, field.len() as nat),
            (filled@, to_fill as nat) == fill_along(field@, count as nat, cell_type, attempts),
            to_fill <= vacancies(filled@),
        decreases MAX_DRAWS - draws,
    {
        proof {
            if side == 0 {
                assert(side * side == 0);
            }
        }
        let x = draw_below(&mut rng, side);
        let y = draw_below(&mut rng, side);
        let ghost before = filled@;
        let ghost attempt;
        match vacant_at(&filled, x, y) {
            Some(i) => {
                let age = draw_below(&mut rng, AGE_BOUND);
                plant(&mut filled, i, cell_type, age);
                to_fill -= 1;
                proof {
                    attempt = Attempt { x, y, age };
                    lemma_linear_index_in_field(x as int, y as int, field.len() as nat);
                    lemma_plant_vacancies(before, i as int, cell_type, age);
                }
            },
            None => {
                proof {
                    attempt = Attempt { x, y, age: 0 };
                }
            },
        }
        proof {
            assert(attempts.push(attempt).drop_last() =~= attempts);
            attempts = attempts.push(attempt);
        }
        draws += 1;
    }
    proof {
        assert(sampled_along(field@, count as nat, cell_type, attempts, filled@));
    }
    filled
}

/// A field of `size * size` cells, seeded at random with at most
/// `grass_count` cells of grass, `tree_count` trees and `flame_count` flames,
/// in three runs of the sampler, each from the start of the stream of `SEED`.
/// A run falls short of its count only by giving up after `MAX_DRAWS` draws.
///
/// The field must have room for all that is asked for.
pub fn get_random_field(
    size: usize,
    grass_count: usize,
    tree_count: usize,
    flame_count: usize,
) -> (field: Vec<Cell>)
    requires
        size * size <= usize::MAX,
        grass_count + tree_count + flame_count <= size * size,
    ensures
        seeded(size as nat, grass_count as nat, tree_count as nat, flame_count as nat, field@),
        field.len() == size * size,
        forall|i: int| 0 <= i < field.len() ==> seeded_cell(#[trigger] field[i]),
        count_of(field@, CellType::Grass) <= grass_count,
        count_of(field@, CellType::Tree) <= tree_count,
        count_of(field@, CellType::Flame) <= flame_count,
{
    let empty = get_empty_field(size);
    proof {
        lemma_empty_field(size as nat);
        lemma_counts_add_up(empty@, empty@.len());
    }
    let with_grass = rnd_fill_empty(empty.as_slice(), grass_count, CellType::Grass);
    proof {
        lemma_sampled(empty@, grass_count as nat, CellType::Grass, with_grass@);
    }
    let with_trees = rnd_fill_empty(with_grass.as_slice(), tree_count, CellType::Tree);
    proof {
        lemma_sampled(with_grass@, tree_count as nat, CellType::Tree, with_trees@);
    }
    let field = rnd_fill_empty(with_trees.as_slice(), flame_count, CellType::Flame);
    proof {
        lemma_sampled(with_trees@, flame_count as nat, CellType::Flame, field@);
    }
    field
}

} // verus!

//! Spreading: every cell that is old enough and allowed to tries to take over
//! one orthogonal neighbour.

use vstd::prelude::*;
use vstd::slice::slice_to_vec;
use rand_chacha::ChaCha8Rng;
use crate::cell::{Cell, CellType};
use crate::grid::{
    cartesian_to_linear,
    coordinates,
    is_side,
    lemma_coordinates_on_grid,
    lemma_linear_index_in_field,
    lemma_side_of,
    lemma_side_unique,
    on_grid,
    side_of,
    linear_index,
    linear_to_cartesian,
};
use crate::rng::{draw_word, pick_one, seeded_rng, SEED};

verus! {

/// The neighbour that a cell spreads to.
#[derive(Clone, Copy, Debug, PartialEq, Eq, Structural)]
pub enum Direction {
    Left,
    Right,
    Up,
    Down,
}

impl Direction {
    /// The step in columns and in rows.
    pub open spec fn offset(self) -> (int, int) {
        match self {
            Direction::Left => (-1, 0),
            Direction::Right => (1, 0),
            Direction::Up => (0, -1),
            Direction::Down => (0, 1),
        }
    }

    /// The step in columns and in rows, as signed machine integers.
    pub fn delta(self) -> (by: (isize, isize))
        ensures
            (by.0 as int, by.1 as int) == self.offset(),
    {
        match self {
            Direction::Left => (-1, 0),
            Direction::Right => (1, 0),
            Direction::Up => (0, -1),
            Direction::Down => (0, 1),
        }
    }
}

/// A uniform draw from [0, 1) in steps of 2^-24, as its numerator: the 24
/// leading bits of a uniform 32-bit word.
pub open spec fn fraction(word: u32) -> u32 {
    word >> 8
}

/// The direction that two uniform words and a sign select. The axis is
/// vertical when the second fraction exceeds the first, else horizontal; a
/// negative sign steps towards index 0 on that axis.
pub open spec fn drawn_direction(first: u32, second: u32, sign: isize) -> Direction {
    if fraction(second) > fraction(first) {
        if sign < 0 {
            Direction::Up
        } else {
            Direction::Down
        }
    } else {
        if sign < 0 {
            Direction::Left
        } else {
            Direction::Right
        }
    }
}

/// The linear index of the neighbour of cell `i` in direction `d`, when `i`
/// is a cell of the field and the neighbour lies on the grid.
pub open spec fn neighbor_index(i: int, d: Direction, len: nat) -> Option<int> {
    match coordinates(i, len) {
        Some(c) => linear_index(c.0 + d.offset().0, c.1 + d.offset().1, len),
        None => None,
    }
}

/// Whether a cell of type `source` takes over a neighbour of type `target`:
/// flora takes empty ground, fire takes flora, and nothing else happens.
pub open spec fn takes_over(source: CellType, target: CellType) -> bool {
    match source {
        CellType::Grass | CellType::Tree => target == CellType::Empty,
        CellType::Flame => target == CellType::Grass || target == CellType::Tree,
        CellType::Empty => false,
    }
}

/// A cell that has just been taken over by `kind`.
pub open spec fn sprout(kind: CellType) -> Cell {
    Cell { age: 0, cell_type: kind, propagation: 1 }
}

/// The buffer `out` after cell `i` of `field` has tried to spread in
/// direction `d`. The source is read from `field`, the target from `out`.
pub open spec fn spread_one(field: Seq<Cell>, out: Seq<Cell>, i: int, d: Direction) -> Seq<Cell> {
    match neighbor_index(i, d, field.len()) {
        Some(t) => if takes_over(field[i].cell_type, out[t].cell_type) {
            out.update(t, sprout(field[i].cell_type))
        } else {
            out
        },
        None => out,
    }
}

/// The buffer after the first `n` cells of `field` have had their turn, in
/// index order, each eligible cell `i` spreading in direction `dirs[i]`. A
/// cell without a direction does not spread.
pub open spec fn spread_upto(field: Seq<Cell>, dirs: Seq<Direction>, n: nat) -> Seq<Cell>
    decreases n,
{
    if n == 0 {
        field
    } else {
        let before = spread_upto(field, dirs, (n - 1) as nat);
        let i = n - 1;
        if field[i].eligible() && i < dirs.len() {
            spread_one(field, before, i, dirs[i])
        } else {
            before
        }
    }
}

/// The field after one propagation pass along `dirs`.
pub open spec fn spread_all(field: Seq<Cell>, dirs: Seq<Direction>) -> Seq<Cell> {
    spread_upto(field, dirs, field.len())
}

/// A neighbour is a cell of the field.
pub proof fn lemma_neighbor_in_field(i: int, d: Direction, len: nat)
    ensures
        neighbor_index(i, d, len) matches Some(t) ==> 0 <= t < len,
{
    if let Some(c) = coordinates(i, len) {
        lemma_linear_index_in_field(c.0 + d.offset().0, c.1 + d.offset().1, len);
    }
}

/// One attempt to spread changes no length.
pub proof fn lemma_spread_one_len(field: Seq<Cell>, out: Seq<Cell>, i: int, d: Direction)
    requires
        out.len() == field.len(),
    ensures
        spread_one(field, out, i, d).len() == field.len(),
{
    lemma_neighbor_in_field(i, d, field.len());
}

/// A pass changes no length.
pub proof fn lemma_spread_upto_len(field: Seq<Cell>, dirs: Seq<Direction>, n: nat)
    ensures
        spread_upto(field, dirs, n).len() == field.len(),
    decreases n,
{
    if n > 0 {
        lemma_spread_upto_len(field, dirs, (n - 1) as nat);
        lemma_spread_one_len(field, spread_upto(field, dirs, (n - 1) as nat), n - 1, dirs[n - 1]);
    }
}

/// A cell whose neighbour in the drawn direction is off the grid leaves the
/// buffer as it is.
pub proof fn lemma_blocked_spread(field: Seq<Cell>, out: Seq<Cell>, i: int, d: Direction)
    requires
        neighbor_index(i, d, field.len()) is None,
    ensures
        spread_one(field, out, i, d) == out,
{
}

/// Which cells of the grid are blocked: those in column 0 towards the left,
/// in the last column towards the right, in row 0 upwards and in the last
/// row downwards.
pub proof fn lemma_blocked_at_the_edge(i: int, d: Direction, len: nat)
    requires
        on_grid(i, len),
    ensures
        neighbor_index(i, d, len) is None <==> match d {
            Direction::Left => i % (side_of(len) as int) == 0,
            Direction::Right => i % (side_of(len) as int) == side_of(len) - 1,
            Direction::Up => i / (side_of(len) as int) == 0,
            Direction::Down => i / (side_of(len) as int) == side_of(len) - 1,
        },
{
    lemma_side_of(len);
    lemma_coordinates_on_grid(i, len);
}

/// A field of a single cell never changes in a pass: its cell has no
/// neighbour at all.
pub proof fn lemma_lone_cell_is_fixed(field: Seq<Cell>, dirs: Seq<Direction>)
    requires
        field.len() == 1,
    ensures
        spread_all(field, dirs) == field,
{
    assert(is_side(1, 1)) by (nonlinear_arith);
    lemma_side_unique(1, 1);
    assert(spread_upto(field, dirs, 0) == field);
}

/// Fire spreads to flora only: a flame leaves every empty cell and every
/// flame of the buffer as it is, and where it changes the buffer, its
/// neighbour was grass or a tree and is now a fresh flame.
pub proof fn lemma_fire_needs_fuel(field: Seq<Cell>, out: Seq<Cell>, i: int, d: Direction)
    requires
        out.len() == field.len(),
        field[i].cell_type == CellType::Flame,
    ensures
        forall|j: int|
            0 <= j < out.len() && (out[j].cell_type == CellType::Empty || out[j].cell_type
                == CellType::Flame) ==> #[trigger] spread_one(field, out, i, d)[j] == out[j],
        spread_one(field, out, i, d) != out ==> (neighbor_index(i, d, field.len()) matches Some(t)
            && (out[t].cell_type == CellType::Grass || out[t].cell_type == CellType::Tree)
            && spread_one(field, out, i, d) == out.update(t, sprout(CellType::Flame))),
{
    lemma_neighbor_in_field(i, d, field.len());
}

/// An attempt to spread touches no cell but the neighbour.
pub proof fn lemma_spread_one_frame(field: Seq<Cell>, out: Seq<Cell>, i: int, d: Direction)
    requires
        out.len() == field.len(),
    ensures
        forall|j: int|
            0 <= j < out.len() && neighbor_index(i, d, field.len()) != Some(j)
                ==> #[trigger] spread_one(field, out, i, d)[j] == out[j],
{
    lemma_neighbor_in_field(i, d, field.len());
}

/// A field without an eligible cell never changes in a pass.
pub proof fn lemma_idle_field_is_fixed(field: Seq<Cell>, dirs: Seq<Direction>)
    requires
        forall|i: int| 0 <= i < field.len() ==> !(#[trigger] field[i]).eligible(),
    ensures
        spread_all(field, dirs) == field,
{
    lemma_idle_prefix_is_fixed(field, dirs, field.len());
}

proof fn lemma_idle_prefix_is_fixed(field: Seq<Cell>, dirs: Seq<Direction>, n: nat)
    requires
        n <= field.len(),
        forall|i: int| 0 <= i < field.len() ==> !(#[trigger] field[i]).eligible(),
    ensures
        spread_upto(field, dirs, n) == field,
    decreases n,
{
    if n > 0 {
        lemma_idle_prefix_is_fixed(field, dirs, (n - 1) as nat);
    }
}

/// The direction that two uniform words and a sign select.
pub fn direction_from_draws(first: u32, second: u32, sign: isize) -> (d: Direction)
    ensures
        d == drawn_direction(first, second, sign),
{
    if (second >> 8) > (first >> 8) {
        if sign < 0 {
            Direction::Up
        } else {
            Direction::Down
        }
    } else {
        if sign < 0 {
            Direction::Left
        } else {
            Direction::Right
        }
    }
}

/// The neighbour of cell `index` in direction `d`, if there is one.
pub fn neighbor(index: usize, d: Direction, field: &Vec<Cell>) -> (r: Option<usize>)
    ensures
        match r {
            Some(t) => neighbor_index(index as int, d, field.len() as nat) == Some(t as int) && t
                < field.len(),
            None => neighbor_index(index as int, d, field.len() as nat) is None,
        },
{
    let (x, y) = match linear_to_cartesian(index, field) {
        Ok(c) => c,
        Err(_) => {
            return None;
        },
    };
    let (dx, dy) = d.delta();
    proof {
        lemma_side_of(field.len() as nat);
    }
    let nx = match x.checked_add_signed(dx) {
        Some(v) => v,
        None => {
            return None;
        },
    };
    let ny = match y.checked_add_signed(dy) {
        Some(v) => v,
        None => {
            return None;
        },
    };
    match cartesian_to_linear(nx, ny, field) {
        Ok(t) => Some(t),
        Err(_) => None,
    }
}

/// Lets cell `index` of `field` try to spread into `out` in direction `d`.
pub fn spread(field: &Vec<Cell>, out: &mut Vec<Cell>, index: usize, d: Direction)
    requires
        old(out).len() == field.len(),
    ensures
        final(out)@ == spread_one(field@, old(out)@, index as int, d),
{
    match neighbor(index, d, field) {
        Some(t) => {
            let source = field[index].cell_type;
            let target = out[t].cell_type;
            let taken = match source {
                CellType::Grass | CellType::Tree => target == CellType::Empty,
                CellType::Flame => target == CellType::Grass || target == CellType::Tree,
                CellType::Empty => false,
            };
            if taken {
                out.set(t, Cell { age: 0, cell_type: source, propagation: 1 });
            }
        },
        None => {},
    }
}

/// One propagation pass in which cell `i`, if eligible, spreads in direction
/// `directions[i]`; a cell without a direction does not spread. Cells take
/// their turn in index order. Sources are read from `field`; targets are read
/// from and written to a copy of it, so that a cell finds its target as the
/// cells before it have left it.
pub fn propagate_along(field: &Vec<Cell>, directions: &Vec<Direction>) -> (next: Vec<Cell>)
    ensures
        next@ == spread_all(field@, directions@),
        next.len() == field.len(),
{
    let mut out = slice_to_vec(field.as_slice());
    let mut i: usize = 0;
    while i < field.len()
        invariant
            i <= field.len(),
            out.len() == field.len(),
            out@ == spread_upto(field@, directions@, i as nat),
        decreases field.len() - i,
    {
        if field[i].is_eligible() && i < directions.len() {
            proof {
                lemma_spread_one_len(field@, out@, i as int, directions@[i as int]);
            }
            spread(field, &mut out, i, directions[i]);
        }
        i += 1;
    }
    out
}

/// Draws a direction for every eligible cell of `field`, in index order. A
/// cell that is not eligible draws nothing and is given `Direction::Right`.
fn draw_directions(field: &Vec<Cell>, rng: &mut ChaCha8Rng) -> (directions: Vec<Direction>)
    ensures
        directions.len() == field.len(),
        forall|i: int|
            0 <= i < field.len() && !field[i].eligible() ==> #[trigger] directions[i]
                == Direction::Right,
{
    let mut signs: Vec<isize> = Vec::new();
    signs.push(-1);
    signs.push(1);
    let mut directions: Vec<Direction> = Vec::new();
    let mut i: usize = 0;
    while i < field.len()
        invariant
            i <= field.len(),
            directions.len() == i,
            signs.len() == 2,
            forall|j: int|
                0 <= j < i && !field[j].eligible() ==> #[trigger] directions[j]
                    == Direction::Right,
        decreases field.len() - i,
    {
        if field[i].is_eligible() {
            let first = draw_word(rng);
            let second = draw_word(rng);
            let sign = match pick_one(rng, &signs) {
                Some(s) => s,
                None => 1,
            };
            directions.push(direction_from_draws(first, second, sign));
        } else {
            directions.push(Direction::Right);
        }
        i += 1;
    }
    directions
}

/// One propagation pass with directions drawn from the stream of `SEED`.
/// Whatever is drawn, the result is the pass along some direction per cell.
pub fn propagate(field: &Vec<Cell>) -> (next: Vec<Cell>)
    ensures
        exists|dirs: Seq<Direction>|
            dirs.len() == field.len() && next@ == #[trigger] spread_all(field@, dirs),
        next.len() == field.len(),
{
    let mut rng = seeded_rng(SEED);
    let directions = draw_directions(field, &mut rng);
    propagate_along(field, &directions)
}

} // verus!

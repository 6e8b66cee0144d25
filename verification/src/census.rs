//! Counting the cells of each type.

use vstd::prelude::*;
use crate::cell::{Cell, CellType};

verus! {

/// How many of the first `n` cells of `field` are of type `kind`.
pub open spec fn count_in(field: Seq<Cell>, kind: CellType, n: nat) -> nat
    decreases n,
{
    if n == 0 {
        0
    } else {
        let rest = count_in(field, kind, (n - 1) as nat);
        if field[n - 1].cell_type == kind {
            rest + 1
        } else {
            rest
        }
    }
}

/// How many cells of `field` are of type `kind`.
pub open spec fn count_of(field: Seq<Cell>, kind: CellType) -> nat {
    count_in(field, kind, field.len())
}

/// Where all of the first `n` cells are of type `kind`, all are counted.
pub proof fn lemma_count_in_all(field: Seq<Cell>, kind: CellType, n: nat)
    requires
        n <= field.len(),
        forall|i: int| 0 <= i < n ==> (#[trigger] field[i]).cell_type == kind,
    ensures
        count_in(field, kind, n) == n,
    decreases n,
{
    if n > 0 {
        lemma_count_in_all(field, kind, (n - 1) as nat);
    }
}

/// What replacing cell `i` does to a count: the old cell leaves it, the new
/// one enters it, if `i` is among the cells counted.
pub proof fn lemma_count_in_update(field: Seq<Cell>, kind: CellType, n: nat, i: int, cell: Cell)
    requires
        0 <= i < field.len(),
        n <= field.len(),
    ensures
        count_in(field.update(i, cell), kind, n) == count_in(field, kind, n) - (if i < n
            && field[i].cell_type == kind {
            1int
        } else {
            0int
        }) + (if i < n && cell.cell_type == kind {
            1int
        } else {
            0int
        }),
    decreases n,
{
    if n > 0 {
        lemma_count_in_update(field, kind, (n - 1) as nat, i, cell);
    }
}

/// The four types share the cells among them.
pub proof fn lemma_counts_add_up(field: Seq<Cell>, n: nat)
    ensures
        count_in(field, CellType::Empty, n) + count_in(field, CellType::Grass, n) + count_in(
            field,
            CellType::Tree,
            n,
        ) + count_in(field, CellType::Flame, n) == n,
    decreases n,
{
    if n > 0 {
        lemma_counts_add_up(field, (n - 1) as nat);
    }
}

/// How many cells of each type a field holds.
#[derive(Clone, Copy, Debug, PartialEq, Eq, Structural)]
pub struct Stats {
    pub empty: usize,
    pub grass: usize,
    pub trees: usize,
    pub flames: usize,
}

/// How many cells of `field` are of type `kind`.
pub fn count_cells(field: &[Cell], kind: CellType) -> (n: usize)
    ensures
        n == count_of(field@, kind),
{
    let mut n: usize = 0;
    let mut i: usize = 0;
    while i < field.len()
        invariant
            i <= field.len(),
            n == count_in(field@, kind, i as nat),
            n <= i,
        decreases field.len() - i,
    {
        if field[i].cell_type == kind {
            n += 1;
        }
        i += 1;
    }
    n
}

/// The census of a field.
pub fn get_stats(field: &[Cell]) -> (stats: Stats)
    ensures
        stats.empty == count_of(field@, CellType::Empty),
        stats.grass == count_of(field@, CellType::Grass),
        stats.trees == count_of(field@, CellType::Tree),
        stats.flames == count_of(field@, CellType::Flame),
{
    Stats {
        empty: count_cells(field, CellType::Empty),
        grass: count_cells(field, CellType::Grass),
        trees: count_cells(field, CellType::Tree),
        flames: count_cells(field, CellType::Flame),
    }
}

} // verus!

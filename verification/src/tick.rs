//! One tick of the simulation: every cell ages, then the field propagates.

use vstd::prelude::*;
use vstd::slice::slice_to_vec;
use crate::cell::{Cell, CellType};
use crate::propagation::{lemma_idle_field_is_fixed, propagate, spread_all, Direction};

verus! {

/// Every cell of the field can be stepped.
pub open spec fn can_age(field: Seq<Cell>) -> bool {
    forall|i: int| 0 <= i < field.len() ==> (#[trigger] field[i]).can_step()
}

/// The field with every cell stepped on its own.
pub open spec fn aged(field: Seq<Cell>) -> Seq<Cell> {
    Seq::new(field.len(), |i: int| field[i].stepped())
}

/// A field of flames that have all burnt out is a field of ash one tick
/// later, whatever directions are drawn: ash never spreads.
pub proof fn lemma_burnt_out_field_turns_to_ash(field: Seq<Cell>, dirs: Seq<Direction>)
    requires
        forall|i: int| 0 <= i < field.len() ==> (#[trigger] field[i]).burnt_out(),
    ensures
        spread_all(aged(field), dirs) == Seq::new(field.len(), |i: int| Cell::ash()),
{
    lemma_idle_field_is_fixed(aged(field), dirs);
}

/// Aging never makes flora or empty ground younger and never changes what
/// it is; a flame burns on or turns to ash.
pub proof fn lemma_aged(field: Seq<Cell>, i: int)
    requires
        can_age(field),
        0 <= i < field.len(),
    ensures
        aged(field).len() == field.len(),
        field[i].cell_type != CellType::Flame ==> aged(field)[i].age == field[i].age + 1
            && aged(field)[i].cell_type == field[i].cell_type && aged(field)[i].propagation
            == field[i].propagation,
        field[i].cell_type == CellType::Flame ==> aged(field)[i] == Cell::ash() || (aged(
            field,
        )[i].cell_type == CellType::Flame && aged(field)[i].age == field[i].age + 1),
{
}

/// The field with every cell one tick older, and every burnt-out flame
/// turned to ash.
pub fn step_cells(field: &[Cell]) -> (next: Vec<Cell>)
    requires
        can_age(field@),
    ensures
        next@ == aged(field@),
{
    let mut next = slice_to_vec(field);
    let mut i: usize = 0;
    while i < next.len()
        invariant
            i <= next.len(),
            next.len() == field.len(),
            can_age(field@),
            forall|j: int| 0 <= j < i ==> #[trigger] next[j] == field[j].stepped(),
            forall|j: int| i <= j < next.len() ==> #[trigger] next[j] == field[j],
        decreases next.len() - i,
    {
        let mut cell = next[i];
        let stepped = cell.step();
        next.set(i, stepped);
        i += 1;
    }
    next
}

/// The field one tick later: every cell is stepped, and the stepped field
/// makes one propagation pass with directions drawn from the stream of
/// `SEED`. Whatever is drawn, the result is the pass along some direction
/// per cell.
pub fn get_field_step(field: &[Cell]) -> (next: Vec<Cell>)
    requires
        can_age(field@),
    ensures
        exists|dirs: Seq<Direction>|
            dirs.len() == field.len() && next@ == #[trigger] spread_all(aged(field@), dirs),
        next.len() == field.len(),
{
    let stepped = step_cells(field);
    propagate(&stepped)
}

} // verus!

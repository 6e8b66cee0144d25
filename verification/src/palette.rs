//! How a cell looks: a colour by its type, more opaque as the cell ages.

use vstd::prelude::*;
use crate::cell::{Cell, CellType};

verus! {

/// A colour with premultiplied alpha.
#[derive(Clone, Copy, Debug, PartialEq, Eq, Structural)]
pub struct Rgba {
    pub r: u8,
    pub g: u8,
    pub b: u8,
    pub a: u8,
}

/// The opacity of a cell of age `age`: 31 for every tick, up to 255.
pub open spec fn opacity_of(age: nat) -> nat {
    if age * 31 < 255 {
        age * 31
    } else {
        255
    }
}

/// The colour of a cell: black for empty ground, else a green or a red of
/// the opacity of its age.
pub open spec fn colour_of(cell: Cell) -> Rgba {
    let a = opacity_of(cell.age as nat) as u8;
    match cell.cell_type {
        CellType::Empty => Rgba { r: 0, g: 0, b: 0, a: 255 },
        CellType::Grass => Rgba { r: 25, g: 200, b: 80, a },
        CellType::Tree => Rgba { r: 80, g: 150, b: 80, a },
        CellType::Flame => Rgba { r: 200, g: 50, b: 50, a },
    }
}

/// The opacity of a cell of age `age`.
pub fn opacity(age: usize) -> (a: u8)
    ensures
        a == opacity_of(age as nat),
{
    if age < 9 {
        (age * 31) as u8
    } else {
        255
    }
}

/// The colour of a cell.
pub fn colour(cell: &Cell) -> (c: Rgba)
    ensures
        c == colour_of(*cell),
{
    let a = opacity(cell.age);
    match cell.cell_type {
        CellType::Empty => Rgba { r: 0, g: 0, b: 0, a: 255 },
        CellType::Grass => Rgba { r: 25, g: 200, b: 80, a },
        CellType::Tree => Rgba { r: 80, g: 150, b: 80, a },
        CellType::Flame => Rgba { r: 200, g: 50, b: 50, a },
    }
}

} // verus!

//! The side of a field and the mapping between a linear index and a pair of
//! grid coordinates.

use vstd::prelude::*;
use vstd::arithmetic::div_mod::{
    lemma_fundamental_div_mod,
    lemma_fundamental_div_mod_converse,
    lemma_multiply_divide_lt,
};
use crate::cell::Cell;

verus! {

/// `s` is the integer square root of `len`: the largest number whose square
/// does not exceed `len`.
pub open spec fn is_side(s: nat, len: nat) -> bool {
    s * s <= len < (s + 1) * (s + 1)
}

/// The side of a field of `len` cells: the integer square root of `len`.
pub open spec fn side_of(len: nat) -> nat {
    choose|s: nat| is_side(s, len)
}

/// Squaring is strictly monotone on the naturals.
pub proof fn lemma_square_monotone(a: nat, b: nat)
    requires
        a < b,
    ensures
        a * a < b * b,
        (a + 1) * (a + 1) <= b * b,
{
    assert(a * a < b * b) by (nonlinear_arith)
        requires
            a < b,
    ;
    assert((a + 1) * (a + 1) <= b * b) by (nonlinear_arith)
        requires
            a + 1 <= b,
    ;
}

/// Every length has a side.
pub proof fn lemma_side_exists(len: nat)
    ensures
        exists|s: nat| is_side(s, len),
    decreases len,
{
    if len == 0 {
        assert(is_side(0, 0)) by (nonlinear_arith);
    } else {
        let prev = (len - 1) as nat;
        lemma_side_exists(prev);
        let s = choose|s: nat| is_side(s, prev);
        if (s + 1) * (s + 1) <= len {
            assert(len < (s + 2) * (s + 2)) by (nonlinear_arith)
                requires
                    (s + 1) * (s + 1) == len,
            ;
            assert(is_side(s + 1, len));
        } else {
            assert(is_side(s, len));
        }
    }
}

/// A length has one side only, and `side_of` is that side.
pub proof fn lemma_side_unique(s: nat, len: nat)
    requires
        is_side(s, len),
    ensures
        side_of(len) == s,
{
    let t = side_of(len);
    if t < s {
        lemma_square_monotone(t, s);
    } else if s < t {
        lemma_square_monotone(s, t);
    }
}

/// What `side_of` is: its square fits in `len`, the next square does not.
pub proof fn lemma_side_of(len: nat)
    ensures
        is_side(side_of(len), len),
        side_of(len) <= len,
        len > 0 ==> side_of(len) > 0,
{
    lemma_side_exists(len);
    let s = side_of(len);
    assert(s <= s * s) by (nonlinear_arith);
    if len > 0 && s == 0 {
        assert((s + 1) * (s + 1) == 1) by (nonlinear_arith)
            requires
                s == 0,
        ;
    }
}

/// A field of `size * size` cells has the side `size`.
pub proof fn lemma_side_of_square(size: nat)
    ensures
        side_of(size * size) == size,
{
    assert(is_side(size, size * size)) by (nonlinear_arith);
    lemma_side_unique(size, size * size);
}

/// The side of a field of `len` cells, by bisection.
pub fn field_side(len: usize) -> (side: usize)
    ensures
        side == side_of(len as nat),
        is_side(side as nat, len as nat),
{
    let target: u128 = len as u128;
    let mut lo: u128 = 0;
    let mut hi: u128 = 0x1_0000_0000;
    assert(0x1_0000_0000u128 * 0x1_0000_0000u128 > target) by (nonlinear_arith)
        requires
            target <= 0xffff_ffff_ffff_ffff,
    ;
    while hi - lo > 1
        invariant
            lo < hi <= 0x1_0000_0000,
            lo * lo <= target < hi * hi,
            target == len,
        decreases hi - lo,
    {
        let mid: u128 = lo + (hi - lo) / 2;
        assert(mid * mid <= 0x1_0000_0000_0000_0000) by (nonlinear_arith)
            requires
                mid <= 0x1_0000_0000,
        ;
        if mid * mid <= target {
            lo = mid;
        } else {
            hi = mid;
        }
    }
    proof {
        lemma_side_unique(lo as nat, len as nat);
    }
    lo as usize
}

/// The linear index of the cell at column `x` of row `y`, in a field of
/// `len` cells: `y * side + x` when both coordinates lie on the grid.
pub open spec fn linear_index(x: int, y: int, len: nat) -> Option<int> {
    let side = side_of(len) as int;
    if 0 <= x < side && 0 <= y < side {
        Some(y * side + x)
    } else {
        None
    }
}

/// The column and row of the cell at linear index `i`, in a field of `len`
/// cells: `(i % side, i / side)` when `i` is an index of the field.
pub open spec fn coordinates(i: int, len: nat) -> Option<(int, int)> {
    let side = side_of(len) as int;
    if 0 <= i < len {
        Some((i % side, i / side))
    } else {
        None
    }
}

/// The cells that coordinates reach: the first `side * side` of the field.
pub open spec fn on_grid(i: int, len: nat) -> bool {
    0 <= i < side_of(len) * side_of(len)
}

/// A pair of coordinates on the grid names a cell of the field.
pub proof fn lemma_linear_index_on_grid(x: int, y: int, len: nat)
    requires
        0 <= x < side_of(len),
        0 <= y < side_of(len),
    ensures
        on_grid(y * side_of(len) + x, len),
        0 <= y * side_of(len) + x < len,
{
    lemma_side_of(len);
    let side = side_of(len) as int;
    assert(0 <= y * side + x < side * side) by (nonlinear_arith)
        requires
            0 <= x < side,
            0 <= y < side,
    ;
}

/// Whatever `linear_index` names is a cell of the field, and on the grid.
pub proof fn lemma_linear_index_in_field(x: int, y: int, len: nat)
    ensures
        linear_index(x, y, len) matches Some(i) ==> 0 <= i < len && on_grid(i, len),
{
    if linear_index(x, y, len) is Some {
        lemma_linear_index_on_grid(x, y, len);
    }
}

/// The coordinates of a cell on the grid lie below the side.
pub proof fn lemma_coordinates_on_grid(i: int, len: nat)
    requires
        on_grid(i, len),
    ensures
        0 <= i % (side_of(len) as int) < side_of(len),
        0 <= i / (side_of(len) as int) < side_of(len),
        i == (i / (side_of(len) as int)) * side_of(len) + i % (side_of(len) as int),
{
    let side = side_of(len) as int;
    assert(side > 0) by (nonlinear_arith)
        requires
            0 <= side,
            0 <= i < side * side,
    ;
    lemma_fundamental_div_mod(i, side);
    lemma_multiply_divide_lt(i, side, side);
}

/// From a linear index on the grid to coordinates and back gives the index.
pub proof fn lemma_linear_round_trip(i: int, len: nat)
    requires
        on_grid(i, len),
    ensures
        coordinates(i, len) matches Some(c) && linear_index(c.0, c.1, len) == Some(i),
{
    lemma_side_of(len);
    lemma_coordinates_on_grid(i, len);
}

/// In a field of `size * size` cells every index is on the grid, so from any
/// index of the field to coordinates and back gives the index.
pub proof fn lemma_square_field_round_trip(i: int, size: nat)
    requires
        0 <= i < size * size,
    ensures
        on_grid(i, size * size),
        coordinates(i, size * size) matches Some(c) && linear_index(c.0, c.1, size * size)
            == Some(i),
{
    lemma_side_of_square(size);
    lemma_linear_round_trip(i, size * size);
}

/// From coordinates on the grid to a linear index and back gives the
/// coordinates.
pub proof fn lemma_cartesian_round_trip(x: int, y: int, len: nat)
    requires
        0 <= x < side_of(len),
        0 <= y < side_of(len),
    ensures
        linear_index(x, y, len) matches Some(i) && coordinates(i, len) == Some((x, y)),
{
    lemma_linear_index_on_grid(x, y, len);
    let side = side_of(len) as int;
    lemma_fundamental_div_mod_converse(y * side + x, side, y, x);
}

/// The linear index of the cell at column `x` of row `y`, or an error when
/// either coordinate is not below the side of the field.
pub fn cartesian_to_linear(x: usize, y: usize, field: &Vec<Cell>) -> (r: Result<
    usize,
    &'static str,
>)
    ensures
        match r {
            Ok(i) => linear_index(x as int, y as int, field.len() as nat) == Some(i as int) && i
                < field.len(),
            Err(e) => linear_index(x as int, y as int, field.len() as nat) is None && e@
                == "Out of Bounds (C2L)"@,
        },
{
    let side = field_side(field.len());
    if x >= side || y >= side {
        return Err("Out of Bounds (C2L)");
    }
    proof {
        lemma_linear_index_on_grid(x as int, y as int, field.len() as nat);
    }
    Ok(y * side + x)
}

/// The column and row of the cell at `position`, or an error when `position`
/// is no index of the field.
pub fn linear_to_cartesian(position: usize, field: &Vec<Cell>) -> (r: Result<
    (usize, usize),
    &'static str,
>)
    ensures
        match r {
            Ok(c) => coordinates(position as int, field.len() as nat) == Some(
                (c.0 as int, c.1 as int),
            ),
            Err(e) => coordinates(position as int, field.len() as nat) is None && e@
                == "Out of Bounds (L2C)"@,
        },
{
    let side = field_side(field.len());
    if position >= field.len() {
        return Err("Out of Bounds (L2C)");
    }
    proof {
        lemma_side_of(field.len() as nat);
    }
    Ok((position % side, position / side))
}

} // verus!

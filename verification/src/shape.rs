//! The seven 5x5 shape templates and their rotated sampling.
//!
//! A template is a fixed binary occupancy pattern indexed by local
//! coordinates (x, y) in 0..5.  Sampling maps the local coordinate through
//! the coordinate transform of the selected orientation and reads the
//! template, so the same immutable data serves all four orientations.

use vstd::prelude::*;
use crate::rotation::Rotation;

verus! {

/// Occupancy of the template of block type `t` at local cell (x, y),
/// before any rotation.  Types: 0 = O, 1 = I, 2 = T, 3 = S, 4 = Z,
/// 5 = L, 6 = J.
pub open spec fn shape_spec(t: int, x: int, y: int) -> bool {
    if t == 0 {
        (x == 2 || x == 3) && (y == 2 || y == 3)
    } else if t == 1 {
        x == 2 && 1 <= y <= 4
    } else if t == 2 {
        (y == 2 && 1 <= x <= 3) || (x == 2 && y == 3)
    } else if t == 3 {
        (x == 3 && y == 1) || (y == 2 && 2 <= x <= 3) || (x == 2 && y == 3)
    } else if t == 4 {
        (x == 2 && y == 1) || (y == 2 && 2 <= x <= 3) || (x == 3 && y == 3)
    } else if t == 5 {
        (x == 2 && 1 <= y <= 2) || (y == 3 && 2 <= x <= 3)
    } else if t == 6 {
        (x == 2 && 1 <= y <= 2) || (y == 3 && 1 <= x <= 2)
    } else {
        false
    }
}

/// First template coordinate read when sampling local (x, y) under `r`.
pub open spec fn rot_x(r: Rotation, x: int, y: int) -> int {
    match r {
        Rotation::Cw0 => x,
        Rotation::Cw90 => y,
        Rotation::Cw180 => 4 - x,
        Rotation::Cw270 => 4 - y,
    }
}

/// Second template coordinate read when sampling local (x, y) under `r`.
pub open spec fn rot_y(r: Rotation, x: int, y: int) -> int {
    match r {
        Rotation::Cw0 => y,
        Rotation::Cw90 => 4 - x,
        Rotation::Cw180 => 4 - y,
        Rotation::Cw270 => x,
    }
}

/// Occupancy of block type `t` at local cell (x, y) under orientation `r`.
pub open spec fn sample_spec(t: int, r: Rotation, x: int, y: int) -> bool {
    shape_spec(t, rot_x(r, x, y), rot_y(r, x, y))
}

/// Reads the template of block type `t` at (x, y).
pub fn shape_cell(t: u8, x: usize, y: usize) -> (b: bool)
    requires
        t < 7,
        x < 5,
        y < 5,
    ensures
        b == shape_spec(t as int, x as int, y as int),
{
    if t == 0 {
        (x == 2 || x == 3) && (y == 2 || y == 3)
    } else if t == 1 {
        x == 2 && 1 <= y && y <= 4
    } else if t == 2 {
        (y == 2 && 1 <= x && x <= 3) || (x == 2 && y == 3)
    } else if t == 3 {
        (x == 3 && y == 1) || (y == 2 && 2 <= x && x <= 3) || (x == 2 && y == 3)
    } else if t == 4 {
        (x == 2 && y == 1) || (y == 2 && 2 <= x && x <= 3) || (x == 3 && y == 3)
    } else if t == 5 {
        (x == 2 && 1 <= y && y <= 2) || (y == 3 && 2 <= x && x <= 3)
    } else {
        (x == 2 && 1 <= y && y <= 2) || (y == 3 && 1 <= x && x <= 2)
    }
}

/// Samples block type `t` under orientation `r` at local cell (x, y).
pub fn sample_cell(t: u8, r: Rotation, x: usize, y: usize) -> (b: bool)
    requires
        t < 7,
        x < 5,
        y < 5,
    ensures
        b == sample_spec(t as int, r, x as int, y as int),
{
    match r {
        Rotation::Cw0 => shape_cell(t, x, y),
        Rotation::Cw90 => shape_cell(t, y, 4 - x),
        Rotation::Cw180 => shape_cell(t, 4 - x, 4 - y),
        Rotation::Cw270 => shape_cell(t, 4 - y, x),
    }
}

/// Every template occupies its centre cell (2, 2), under every
/// orientation: all four transforms fix the centre of the 5x5 box.
pub proof fn lemma_center_occupied(t: int, r: Rotation)
    requires
        0 <= t < 7,
    ensures
        sample_spec(t, r, 2, 2),
{
}

/// Sampling is invariant under four successive rotations: for every
/// shape, orientation and local cell the value returns to itself.
pub proof fn lemma_sample_rotation_closure(t: int, r: Rotation, x: int, y: int)
    ensures
        sample_spec(t, r.next_spec().next_spec().next_spec().next_spec(), x, y)
            == sample_spec(t, r, x, y),
{
    crate::rotation::lemma_rotation_closure(r);
}

} // verus!

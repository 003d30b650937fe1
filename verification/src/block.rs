//! The falling block: shape sampling, grid painting, and validated moves.
//!
//! A block keeps its current position and orientation together with the
//! previous ones — the last state known to be free of overlap.  Any
//! tentative move or rotation that would overlap an occupied cell is
//! rolled back to that baseline, and a blocked straight-down move marks
//! the block as landed.  Stamping and erasing write only interior cells,
//! so the wall ring can never be repainted by a block.

use vstd::prelude::*;
use crate::rotation::Rotation;
use crate::shape::{sample_spec, sample_cell, lemma_center_occupied};
use crate::tile_map::{TileMap, solid_at, dims_ok, WALL_TILE};

verus! {

/// Greatest coordinate magnitude a block position may take; comfortably
/// above every grid size this crate accepts, and small enough that the
/// local 5x5 offsets can never overflow an i16.
pub const POS_BOUND: i16 = 0x1000;

#[derive(Debug, Clone, Copy, PartialEq, Eq, Structural)]
pub struct Block {
    pub pos_x: i16,
    pub pos_y: i16,
    pub prev_x: i16,
    pub prev_y: i16,
    pub block_type: u8,
    pub rotation: Rotation,
    pub previous_rotation: Rotation,
    pub down: bool,
    pub moving_down: bool,
}

/// Does the block footprint of type `t`, oriented by `r` and anchored at
/// (px, py), cover the grid cell (gx, gy)?
pub open spec fn covers(t: u8, r: Rotation, px: int, py: int, gx: int, gy: int) -> bool {
    &&& 0 <= gx - px < 5
    &&& 0 <= gy - py < 5
    &&& sample_spec(t as int, r, gx - px, gy - py)
}

/// Does the footprint anchored at (px, py) overlap any occupied cell of
/// `v` (walls, locked blocks, or the solid outside)?
pub open spec fn hits(v: Seq<Seq<i16>>, t: u8, r: Rotation, px: int, py: int) -> bool {
    exists|lx: int, ly: int|
        0 <= lx < 5 && 0 <= ly < 5 && #[trigger] sample_spec(t as int, r, lx, ly)
            && solid_at(v, px + lx, py + ly) > 0
}

/// `v` with `val` written into every interior, above-bottom-row cell that
/// the footprint covers; border and outside cells are left as they are.
pub open spec fn painted(
    v: Seq<Seq<i16>>,
    t: u8,
    r: Rotation,
    px: int,
    py: int,
    val: i16,
) -> Seq<Seq<i16>> {
    Seq::new(
        v.len(),
        |x: int|
            Seq::new(
                v[x].len(),
                |y: int|
                    if covers(t, r, px, py, x, y) && 1 <= x < v.len() - 1 && y < v[x].len() - 1 {
                        val
                    } else {
                        v[x][y]
                    },
            ),
    )
}

/// Like `painted`, but with only the first `k` local cells (in row-major
/// order of the 5x5 box) applied; `painted_upto(.., 25)` is `painted`.
pub open spec fn painted_upto(
    v: Seq<Seq<i16>>,
    t: u8,
    r: Rotation,
    px: int,
    py: int,
    val: i16,
    k: int,
) -> Seq<Seq<i16>> {
    Seq::new(
        v.len(),
        |x: int|
            Seq::new(
                v[x].len(),
                |y: int|
                    if covers(t, r, px, py, x, y) && 1 <= x < v.len() - 1 && y < v[x].len() - 1
                        && (x - px) * 5 + (y - py) < k {
                        val
                    } else {
                        v[x][y]
                    },
            ),
    )
}

/// Writes `val` into every interior cell covered by the given footprint.
fn paint(tile_map: &mut TileMap, t: u8, r: Rotation, px: i16, py: i16, val: i16)
    requires
        old(tile_map).wf(),
        t < 7,
        -POS_BOUND <= px <= POS_BOUND,
        -POS_BOUND <= py <= POS_BOUND,
        0 <= val <= WALL_TILE,
    ensures
        final(tile_map).wf(),
        final(tile_map).width == old(tile_map).width,
        final(tile_map).height == old(tile_map).height,
        final(tile_map).grid() == painted(old(tile_map).grid(), t, r, px as int, py as int, val),
    {
    let ghost g0 = tile_map.grid();
    let w = tile_map.width;
    let h = tile_map.height;
    let mut k: usize = 0;
    proof {
        assert(tile_map.grid() =~~= painted_upto(g0, t, r, px as int, py as int, val, 0));
    }
    while k < 25
        invariant
            tile_map.wf(),
            tile_map.width == w,
            tile_map.height == h,
            dims_ok(g0, w as int, h as int),
            t < 7,
            -POS_BOUND <= px <= POS_BOUND,
            -POS_BOUND <= py <= POS_BOUND,
            0 <= val <= WALL_TILE,
            k <= 25,
            tile_map.grid() == painted_upto(g0, t, r, px as int, py as int, val, k as int),
        decreases 25 - k,
    {
        let lx = k / 5;
        let ly = k % 5;
        let ghost gpre = tile_map.grid();
        if sample_cell(t, r, lx, ly) {
            let gx: i16 = px + lx as i16;
            let gy: i16 = py + ly as i16;
            if gx >= 1 && (gx as usize) < w - 1 && gy >= 0 && (gy as usize) < h - 1 {
                tile_map.set(gx, gy, val);
            }
        }
        proof {
            let ki = k as int;
            let pxi = px as int;
            let pyi = py as int;
            assert forall|x: int, y: int| 0 <= x < w && 0 <= y < h
                implies tile_map.grid()[x][y]
                    == painted_upto(g0, t, r, pxi, pyi, val, ki + 1)[x][y] by {
                if x == pxi + ki / 5 && y == pyi + ki % 5 {
                    assert((x - pxi) * 5 + (y - pyi) == ki) by (nonlinear_arith)
                        requires x == pxi + ki / 5 && y == pyi + ki % 5 && 0 <= ki < 25;
                } else {
                    assert((x - pxi) * 5 + (y - pyi) != ki || !(0 <= x - pxi < 5)
                        || !(0 <= y - pyi < 5)) by (nonlinear_arith)
                        requires
                            !(x == pxi + ki / 5 && y == pyi + ki % 5) && 0 <= ki < 25;
                    assert(tile_map.grid()[x][y] == gpre[x][y]);
                }
            }
            assert(tile_map.grid() =~~= painted_upto(g0, t, r, pxi, pyi, val, ki + 1));
        }
        k += 1;
    }
    proof {
        assert(tile_map.grid() =~~= painted(g0, t, r, px as int, py as int, val));
    }
}

/// The grid after erasing a block: its footprint at the *previous*
/// position, under the *current* orientation, zeroed (interior cells
/// only).
pub open spec fn erased(v: Seq<Seq<i16>>, b: Block) -> Seq<Seq<i16>> {
    painted(v, b.block_type, b.rotation, b.prev_x as int, b.prev_y as int, 0)
}

/// The grid after stamping a block: its footprint at the current position
/// and orientation painted with its tile id (interior cells only).
pub open spec fn stamped(v: Seq<Seq<i16>>, b: Block) -> Seq<Seq<i16>> {
    painted(v, b.block_type, b.rotation, b.pos_x as int, b.pos_y as int, (b.block_type + 1) as i16)
}

impl Block {
    pub open spec fn wf(self) -> bool {
        &&& self.block_type < 7
        &&& -POS_BOUND <= self.pos_x <= POS_BOUND
        &&& -POS_BOUND <= self.pos_y <= POS_BOUND
        &&& -POS_BOUND <= self.prev_x <= POS_BOUND
        &&& -POS_BOUND <= self.prev_y <= POS_BOUND
    }

    /// A fresh block of the given type, anchored at (x, y), unrotated,
    /// neither landed nor asked to fall.
    pub fn new(x: i16, y: i16, block_type: u8) -> (b: Block)
        requires
            block_type < 7,
            -POS_BOUND <= x <= POS_BOUND,
            -POS_BOUND <= y <= POS_BOUND,
        ensures
            b == (Block {
                pos_x: x,
                pos_y: y,
                prev_x: x,
                prev_y: y,
                block_type,
                rotation: Rotation::Cw0,
                previous_rotation: Rotation::Cw0,
                down: false,
                moving_down: false,
            }),
            b.wf(),
    {
        Block {
            pos_x: x,
            pos_y: y,
            prev_x: x,
            prev_y: y,
            block_type,
            rotation: Rotation::Cw0,
            previous_rotation: Rotation::Cw0,
            down: false,
            moving_down: false,
        }
    }

    /// Samples the block's shape at local cell (x, y), under the current
    /// orientation, or under the previous one when `use_previous` is set.
    pub fn sample(&self, x: usize, y: usize, use_previous: bool) -> (b: bool)
        requires
            self.block_type < 7,
            x < 5,
            y < 5,
        ensures
            b == sample_spec(
                self.block_type as int,
                if use_previous { self.previous_rotation } else { self.rotation },
                x as int,
                y as int,
            ),
    {
        let r = if use_previous { self.previous_rotation } else { self.rotation };
        sample_cell(self.block_type, r, x, y)
    }

    /// True once the block can no longer move down.
    pub fn is_down(&self) -> (r: bool)
        ensures
            r == self.down,
    {
        self.down
    }

    /// Writes the block's tile id into every interior grid cell covered
    /// by its footprint at the current position and orientation.
    pub fn stamp(&self, tile_map: &mut TileMap)
        requires
            old(tile_map).wf(),
            self.wf(),
        ensures
            final(tile_map).wf(),
            final(tile_map).width == old(tile_map).width,
            final(tile_map).height == old(tile_map).height,
            final(tile_map).grid() == stamped(old(tile_map).grid(), *self),
    {
        paint(
            tile_map,
            self.block_type,
            self.rotation,
            self.pos_x,
            self.pos_y,
            self.block_type as i16 + 1,
        );
    }

    /// Zeroes every interior grid cell covered by the block's footprint at
    /// its previous position, under the current orientation.  Erasing an
    /// already-erased footprint writes the same zeros again.
    pub fn erase(&self, tile_map: &mut TileMap)
        requires
            old(tile_map).wf(),
            self.wf(),
        ensures
            final(tile_map).wf(),
            final(tile_map).width == old(tile_map).width,
            final(tile_map).height == old(tile_map).height,
            final(tile_map).grid() == erased(old(tile_map).grid(), *self),
    {
        paint(tile_map, self.block_type, self.rotation, self.prev_x, self.prev_y, 0);
    }

    /// Does the footprint anchored at (px, py), oriented by `r`, overlap
    /// any occupied cell of the grid?
    fn overlaps(&self, tile_map: &TileMap, px: i16, py: i16, r: Rotation) -> (b: bool)
        requires
            tile_map.wf(),
            self.block_type < 7,
            -POS_BOUND - 1 <= px <= POS_BOUND + 1,
            -POS_BOUND - 1 <= py <= POS_BOUND + 1,
        ensures
            b == hits(tile_map.grid(), self.block_type, r, px as int, py as int),
    {
        let mut k: usize = 0;
        while k < 25
            invariant
                tile_map.wf(),
                self.block_type < 7,
                -POS_BOUND - 1 <= px <= POS_BOUND + 1,
                -POS_BOUND - 1 <= py <= POS_BOUND + 1,
                k <= 25,
                forall|lx: int, ly: int|
                    0 <= lx < 5 && 0 <= ly < 5 && lx * 5 + ly < k
                        && #[trigger] sample_spec(self.block_type as int, r, lx, ly)
                        ==> solid_at(tile_map.grid(), px + lx, py + ly) <= 0,
            decreases 25 - k,
        {
            let lx = k / 5;
            let ly = k % 5;
            if sample_cell(self.block_type, r, lx, ly) {
                if tile_map.get(px + lx as i16, py + ly as i16) > 0 {
                    return true;
                }
            }
            k += 1;
        }
        false
    }

    /// Moves the block down one row unless it already sits on the lowest
    /// row of the grid.  No collision test is made here.
    pub fn move_down(&mut self, tile_map: &TileMap)
        requires
            old(self).wf(),
            tile_map.wf(),
        ensures
            final(self).wf(),
            *final(self) == (Block {
                pos_y: if old(self).pos_y < tile_map.height - 1 {
                    (old(self).pos_y + 1) as i16
                } else {
                    old(self).pos_y
                },
                ..*old(self)
            }),
    {
        if self.pos_y < tile_map.height as i16 - 1 {
            self.pos_y = self.pos_y + 1;
        }
    }

    /// Tentatively shifts the block by (dx, dy) — a downward step is
    /// skipped on the lowest row — and tests the result against the grid.
    /// On overlap the position rolls back to the previous one, and a
    /// blocked straight-down step marks the block as landed; the landed
    /// flag is never cleared.
    pub fn try_move(&mut self, dx: i16, dy: i16, tile_map: &TileMap)
        requires
            old(self).wf(),
            tile_map.wf(),
            -1 <= dx <= 1,
            0 <= dy <= 1,
        ensures
            final(self).wf(),
            ({
                let cx = old(self).pos_x + dx;
                let cy = if dy > 0 && old(self).pos_y >= tile_map.height - 1 {
                    old(self).pos_y as int
                } else {
                    old(self).pos_y + dy
                };
                let blocked = hits(tile_map.grid(), old(self).block_type,
                    old(self).rotation, cx, cy);
                *final(self) == (Block {
                    pos_x: if blocked { old(self).prev_x } else { cx as i16 },
                    pos_y: if blocked { old(self).prev_y } else { cy as i16 },
                    down: old(self).down
                        || (blocked && cy > old(self).prev_y && cx == old(self).prev_x),
                    ..*old(self)
                })
            }),
            old(self).down ==> final(self).down,
    {
        let cx = self.pos_x + dx;
        let cy = if dy > 0 && self.pos_y >= tile_map.height as i16 - 1 {
            self.pos_y
        } else {
            self.pos_y + dy
        };
        if self.overlaps(tile_map, cx, cy, self.rotation) {
            if cy > self.prev_y && cx == self.prev_x {
                self.down = true;
            }
            self.pos_x = self.prev_x;
            self.pos_y = self.prev_y;
        } else {
            proof {
                lemma_center_occupied(self.block_type as int, self.rotation);
                assert(solid_at(tile_map.grid(), cx + 2, cy + 2) <= 0);
            }
            self.pos_x = cx;
            self.pos_y = cy;
        }
    }

    /// Remembers the current orientation as the rollback target, advances
    /// to the next one, and tests the result in place: an overlapping
    /// rotation is rolled back, nothing else changes.
    pub fn try_rotate(&mut self, tile_map: &TileMap)
        requires
            old(self).wf(),
            tile_map.wf(),
        ensures
            final(self).wf(),
            ({
                let next = old(self).rotation.next_spec();
                let blocked = hits(tile_map.grid(), old(self).block_type, next,
                    old(self).pos_x as int, old(self).pos_y as int);
                *final(self) == (Block {
                    rotation: if blocked { old(self).rotation } else { next },
                    previous_rotation: old(self).rotation,
                    ..*old(self)
                })
            }),
            final(self).down == old(self).down,
    {
        self.previous_rotation = self.rotation;
        let next = self.rotation.next();
        if self.overlaps(tile_map, self.pos_x, self.pos_y, next) {
        } else {
            self.rotation = next;
        }
    }

    /// Adopts the current position as the new rollback baseline.
    pub fn commit_position(&mut self)
        requires
            old(self).wf(),
        ensures
            final(self).wf(),
            *final(self) == (Block {
                prev_x: old(self).pos_x,
                prev_y: old(self).pos_y,
                ..*old(self)
            }),
    {
        self.prev_x = self.pos_x;
        self.prev_y = self.pos_y;
    }
}

/// Erasing is idempotent: a second erase without an intervening stamp
/// repeats the same zero writes and leaves the grid unchanged.
pub proof fn lemma_erase_idempotent(v: Seq<Seq<i16>>, b: Block)
    ensures
        erased(erased(v, b), b) == erased(v, b),
{
    assert(erased(erased(v, b), b) =~~= erased(v, b));
}

/// Painting a footprint — and so stamping or erasing a block — never
/// touches the wall ring: border cells keep their value.
pub proof fn lemma_paint_preserves_borders(
    v: Seq<Seq<i16>>,
    w: int,
    h: int,
    t: u8,
    r: Rotation,
    px: int,
    py: int,
    val: i16,
)
    requires
        dims_ok(v, w, h),
        3 <= w,
        2 <= h,
        crate::tile_map::borders_walled(v, w, h),
    ensures
        crate::tile_map::borders_walled(painted(v, t, r, px, py, val), w, h),
{
}

} // verus!

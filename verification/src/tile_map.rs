//! The playfield: a fixed-size grid of tile ids.
//!
//! Tile ids: 0 is the empty background, 1..=7 are block colours and
//! `WALL_TILE` marks the permanent wall ring.  Reads outside the grid
//! answer the wall id, so the outside world is solid and collision tests
//! near the edges need no special cases.  Row elimination and the interior
//! reset never touch the border columns or the bottom wall row.

use vstd::prelude::*;
use crate::ext::{a2d_view, a2d_filled, a2d_get, a2d_set};

verus! {

pub const WALL_TILE: i16 = 8;

/// Uniform dimensions: `v` holds `w` columns of height `h`.
pub open spec fn dims_ok(v: Seq<Seq<i16>>, w: int, h: int) -> bool {
    &&& v.len() == w
    &&& forall|x: int| 0 <= x < w ==> (#[trigger] v[x]).len() == h
}

/// The id seen at (x, y), with everything outside the grid solid wall.
pub open spec fn solid_at(v: Seq<Seq<i16>>, x: int, y: int) -> i16 {
    if 0 <= x < v.len() && 0 <= y < v[x].len() {
        v[x][y]
    } else {
        WALL_TILE
    }
}

/// Every interior cell of row `y` is occupied.
pub open spec fn row_full(v: Seq<Seq<i16>>, y: int) -> bool {
    forall|x: int| 1 <= x < v.len() - 1 ==> #[trigger] v[x][y] != 0
}

/// The wall ring: both border columns and the bottom row hold the wall id.
pub open spec fn borders_walled(v: Seq<Seq<i16>>, w: int, h: int) -> bool {
    &&& forall|y: int| 0 <= y < h ==> #[trigger] v[0][y] == WALL_TILE
    &&& forall|y: int| 0 <= y < h ==> #[trigger] v[w - 1][y] == WALL_TILE
    &&& forall|x: int| 0 <= x < w ==> #[trigger] v[x][h - 1] == WALL_TILE
}

/// Number of full rows among rows [0, t).
pub open spec fn full_count_upto(v: Seq<Seq<i16>>, t: int) -> int
    decreases t,
{
    if t <= 0 {
        0
    } else {
        full_count_upto(v, t - 1) + if row_full(v, t - 1) { 1int } else { 0int }
    }
}

/// Column `x` restricted to the non-full rows among [0, t), in order.
pub open spec fn kept_upto(v: Seq<Seq<i16>>, x: int, t: int) -> Seq<i16>
    decreases t,
{
    if t <= 0 {
        Seq::empty()
    } else if row_full(v, t - 1) {
        kept_upto(v, x, t - 1)
    } else {
        kept_upto(v, x, t - 1).push(v[x][t - 1])
    }
}

/// What elimination leaves in the rows above the kept ones: copies of the
/// old top row, or the empty id when the top row itself was eliminated.
pub open spec fn top_fill(v: Seq<Seq<i16>>, x: int) -> i16 {
    if row_full(v, 0) {
        0
    } else {
        v[x][0]
    }
}

/// The grid that cascading elimination leaves behind: in each interior
/// column the kept (non-full) rows sink to the bottom of the scanned
/// area, with the fill value repeated above them; borders and the bottom
/// wall row stay.
pub open spec fn eliminate_full_rows(v: Seq<Seq<i16>>, w: int, h: int) -> Seq<Seq<i16>> {
    let k = full_count_upto(v, h - 1);
    Seq::new(
        v.len(),
        |x: int|
            Seq::new(
                v[x].len(),
                |y: int|
                    if 1 <= x < w - 1 && 0 <= y < h - 1 {
                        if y < k {
                            top_fill(v, x)
                        } else {
                            kept_upto(v, x, h - 1)[y - k]
                        }
                    } else {
                        v[x][y]
                    },
            ),
    )
}

/// When no row among [0, t) is full, the kept part of a column is exactly
/// its prefix.
pub proof fn lemma_kept_upto_nofull(v: Seq<Seq<i16>>, x: int, t: int)
    requires
        full_count_upto(v, t) == 0,
    ensures
        kept_upto(v, x, t).len() == t || t < 0,
        forall|j: int| 0 <= j < t ==> #[trigger] kept_upto(v, x, t)[j] == v[x][j],
    decreases t,
{
    if t > 0 {
        assert(full_count_upto(v, t - 1) >= 0) by {
            lemma_full_count_bounds(v, t - 1);
        }
        lemma_kept_upto_nofull(v, x, t - 1);
    }
}

/// The full-row count lies between 0 and t.
pub proof fn lemma_full_count_bounds(v: Seq<Seq<i16>>, t: int)
    ensures
        t >= 0 ==> 0 <= full_count_upto(v, t) <= t,
        t < 0 ==> full_count_upto(v, t) == 0,
    decreases t,
{
    if t > 0 {
        lemma_full_count_bounds(v, t - 1);
    }
}

pub struct TileMap {
    pub width: usize,
    pub height: usize,
    pub cells: array2d::Array2D<i16>,
}

impl TileMap {
    /// The grid contents: outer index = column x, inner index = row y.
    pub open spec fn grid(self) -> Seq<Seq<i16>> {
        a2d_view(self.cells)
    }

    pub open spec fn wf(self) -> bool {
        &&& 3 <= self.width <= 0x1000
        &&& 2 <= self.height <= 0x1000
        &&& dims_ok(self.grid(), self.width as int, self.height as int)
        &&& forall|x: int, y: int|
            0 <= x < self.width && 0 <= y < self.height
                ==> 0 <= #[trigger] self.grid()[x][y] <= WALL_TILE
    }

    /// A freshly allocated grid of the given size, all cells empty.
    pub fn new(width: usize, height: usize) -> (r: TileMap)
        requires
            3 <= width <= 0x1000,
            2 <= height <= 0x1000,
        ensures
            r.wf(),
            r.width == width,
            r.height == height,
            forall|x: int, y: int|
                0 <= x < width && 0 <= y < height ==> #[trigger] r.grid()[x][y] == 0,
    {
        TileMap { width, height, cells: a2d_filled(0, width, height) }
    }

    /// Bounds-checked read: any coordinate outside the grid reads as wall.
    pub fn get(&self, x: i16, y: i16) -> (r: i16)
        requires
            self.wf(),
        ensures
            r == solid_at(self.grid(), x as int, y as int),
    {
        if x < 0 || y < 0 {
            WALL_TILE
        } else {
            let xu = x as usize;
            let yu = y as usize;
            if xu >= self.width || yu >= self.height {
                WALL_TILE
            } else {
                a2d_get(&self.cells, xu, yu)
            }
        }
    }

    /// Writes a tile id into an in-bounds cell; everything else is untouched.
    pub fn set(&mut self, x: i16, y: i16, tile: i16)
        requires
            old(self).wf(),
            0 <= x < old(self).width,
            0 <= y < old(self).height,
            0 <= tile <= WALL_TILE,
        ensures
            final(self).wf(),
            final(self).width == old(self).width,
            final(self).height == old(self).height,
            final(self).grid() == old(self).grid().update(
                x as int,
                old(self).grid()[x as int].update(y as int, tile),
            ),
    {
        a2d_set(&mut self.cells, x as usize, y as usize, tile);
    }

    /// True iff every interior cell of row `y` is occupied.
    pub fn is_row_full(&self, y: i16) -> (r: bool)
        requires
            self.wf(),
            0 <= y < self.height,
        ensures
            r == row_full(self.grid(), y as int),
    {
        let mut x: usize = 1;
        let mut full: bool = true;
        while x < self.width - 1
            invariant
                self.wf(),
                0 <= y < self.height,
                1 <= x <= self.width - 1,
                full == forall|i: int| 1 <= i < x ==> #[trigger] self.grid()[i][y as int] != 0,
            decreases self.width - x,
        {
            if a2d_get(&self.cells, x, y as usize) == 0 {
                full = false;
            }
            x += 1;
        }
        full
    }

    /// Zeroes the interior of row `y`, then shifts every row above it down
    /// by one (row j receives row j - 1, for j = y down to 1).  Row 0 is
    /// not rewritten unless `y` is 0, in which case it is simply zeroed.
    /// Border columns and the rows below `y` are untouched.
    pub fn clear_row_and_shift(&mut self, y: i16)
        requires
            old(self).wf(),
            0 <= y < old(self).height,
        ensures
            final(self).wf(),
            final(self).width == old(self).width,
            final(self).height == old(self).height,
            dims_ok(final(self).grid(), old(self).width as int, old(self).height as int),
            forall|x: int, j: int|
                0 <= x < old(self).width && 0 <= j < old(self).height
                    && !(1 <= x < old(self).width - 1)
                    ==> final(self).grid()[x][j] == old(self).grid()[x][j],
            forall|x: int, j: int|
                1 <= x < old(self).width - 1 && y < j < old(self).height
                    ==> final(self).grid()[x][j] == old(self).grid()[x][j],
            forall|x: int, j: int|
                1 <= x < old(self).width - 1 && 1 <= j <= y
                    ==> final(self).grid()[x][j] == old(self).grid()[x][j - 1],
            y > 0 ==> forall|x: int|
                1 <= x < old(self).width - 1
                    ==> final(self).grid()[x][0] == old(self).grid()[x][0],
            y == 0 ==> forall|x: int|
                1 <= x < old(self).width - 1 ==> final(self).grid()[x][0] == 0,
            borders_walled(old(self).grid(), old(self).width as int, old(self).height as int)
                && y < old(self).height - 1
                ==> borders_walled(
                    final(self).grid(),
                    old(self).width as int,
                    old(self).height as int,
                ),
    {
        let ghost g0 = self.grid();
        let w = self.width;
        // Zero the interior of row y.
        let mut x: usize = 1;
        while x < w - 1
            invariant
                self.wf(),
                self.width == w,
                self.height == old(self).height,
                0 <= y < self.height,
                1 <= x <= w - 1,
                forall|i: int, j: int|
                    0 <= i < w && 0 <= j < self.height && !(1 <= i < x && j == y)
                        ==> self.grid()[i][j] == g0[i][j],
                forall|i: int| 1 <= i < x ==> #[trigger] self.grid()[i][y as int] == 0,
            decreases w - x,
        {
            self.set(x as i16, y, 0);
            x += 1;
        }
        let ghost g1 = self.grid();
        // Shift the rows above y down by one, top target first.
        let mut j: usize = y as usize;
        while j >= 1
            invariant
                self.wf(),
                self.width == w,
                self.height == old(self).height,
                0 <= y < self.height,
                j <= y,
                forall|i: int, k: int|
                    0 <= i < w && 0 <= k < self.height && !(1 <= i < w - 1 && j < k <= y)
                        ==> self.grid()[i][k] == g1[i][k],
                forall|i: int, k: int|
                    1 <= i < w - 1 && j < k <= y ==> self.grid()[i][k] == g1[i][k - 1],
            decreases j,
        {
            let mut i: usize = 1;
            while i < w - 1
                invariant
                    self.wf(),
                    self.width == w,
                    self.height == old(self).height,
                    0 <= y < self.height,
                    1 <= j <= y,
                    1 <= i <= w - 1,
                    forall|a: int, k: int|
                        0 <= a < w && 0 <= k < self.height
                            && !(1 <= a < w - 1 && j < k <= y) && !(1 <= a < i && k == j)
                            ==> self.grid()[a][k] == g1[a][k],
                    forall|a: int, k: int|
                        1 <= a < w - 1 && j < k <= y ==> self.grid()[a][k] == g1[a][k - 1],
                    forall|a: int| 1 <= a < i ==> #[trigger] self.grid()[a][j as int] == g1[a][j - 1],
                decreases w - i,
            {
                let v = a2d_get(&self.cells, i, j - 1);
                self.set(i as i16, j as i16, v);
                i += 1;
            }
            j -= 1;
        }
        proof {
            if y == 0 {
                assert forall|x: int| 1 <= x < old(self).width - 1
                    implies final(self).grid()[x][0] == 0 by {
                    assert(final(self).grid()[x][0] == g1[x][0]);
                    assert(g1[x][0] == 0);
                }
            }
            let wi = old(self).width as int;
            let hi = old(self).height as int;
            if y < hi - 1 && borders_walled(g0, wi, hi) {
                assert forall|jj: int| 0 <= jj < hi
                    implies final(self).grid()[0][jj] == WALL_TILE by {
                    assert(final(self).grid()[0][jj] == g1[0][jj]);
                    assert(g1[0][jj] == g0[0][jj]);
                }
                assert forall|jj: int| 0 <= jj < hi
                    implies (#[trigger] final(self).grid()[wi - 1][jj]) == WALL_TILE by {
                    assert(final(self).grid()[wi - 1][jj] == g1[wi - 1][jj]);
                    assert(g1[wi - 1][jj] == g0[wi - 1][jj]);
                }
                assert forall|x: int| 0 <= x < wi
                    implies final(self).grid()[x][hi - 1] == WALL_TILE by {
                    assert(final(self).grid()[x][hi - 1] == g1[x][hi - 1]);
                    assert(g1[x][hi - 1] == g0[x][hi - 1]);
                }
            }
        }
    }

    /// Scans rows top to bottom (excluding the bottom wall row) and
    /// eliminates every full one, shifting the rows above it down.  A row
    /// shifted into a just-cleared slot is never full itself — every full
    /// row higher up was already removed — so a single pass eliminates
    /// them all, including non-adjacent ones.  Returns the number of rows
    /// removed.  Afterwards each interior column holds `r` copies of the
    /// old fill value on top of its kept (non-full) rows, in order.
    pub fn clear_full_rows(&mut self) -> (r: u32)
        requires
            old(self).wf(),
        ensures
            final(self).wf(),
            final(self).width == old(self).width,
            final(self).height == old(self).height,
            r == full_count_upto(old(self).grid(), old(self).height - 1),
            forall|x: int, j: int|
                0 <= x < old(self).width && 0 <= j < old(self).height
                    && !(1 <= x < old(self).width - 1)
                    ==> final(self).grid()[x][j] == old(self).grid()[x][j],
            forall|x: int|
                1 <= x < old(self).width - 1
                    ==> final(self).grid()[x][old(self).height - 1]
                        == old(self).grid()[x][old(self).height - 1],
            forall|x: int, j: int|
                1 <= x < old(self).width - 1 && 0 <= j < old(self).height - 1
                    ==> final(self).grid()[x][j] == (if j < r {
                        top_fill(old(self).grid(), x)
                    } else {
                        kept_upto(old(self).grid(), x, old(self).height - 1)[j - r]
                    }),
            final(self).grid() == eliminate_full_rows(
                old(self).grid(),
                old(self).width as int,
                old(self).height as int,
            ),
            borders_walled(old(self).grid(), old(self).width as int, old(self).height as int)
                ==> borders_walled(
                    final(self).grid(),
                    old(self).width as int,
                    old(self).height as int,
                ),
    {
        let ghost g0 = self.grid();
        let w = self.width;
        let h = self.height;
        let mut count: u32 = 0;
        let mut y: usize = 0;
        while y < h - 1
            invariant
                self.wf(),
                self.width == w,
                self.height == h,
                dims_ok(g0, w as int, h as int),
                y <= h - 1,
                count == full_count_upto(g0, y as int),
                0 <= count <= y,
                forall|x: int, j: int|
                    0 <= x < w && 0 <= j < h && !(1 <= x < w - 1)
                        ==> self.grid()[x][j] == g0[x][j],
                forall|x: int, j: int|
                    0 <= x < w && y <= j < h ==> self.grid()[x][j] == g0[x][j],
                forall|x: int|
                    1 <= x < w - 1 ==> kept_upto(g0, x, y as int).len() == y - count,
                forall|x: int, j: int|
                    1 <= x < w - 1 && 0 <= j < y
                        ==> self.grid()[x][j] == (if j < count {
                            top_fill(g0, x)
                        } else {
                            kept_upto(g0, x, y as int)[j - count]
                        }),
            decreases h - 1 - y,
        {
            let ghost gpre = self.grid();
            if self.is_row_full(y as i16) {
                proof {
                    assert forall|x: int| 1 <= x < w - 1
                        implies g0[x][y as int] != 0 by {
                        assert(gpre[x][y as int] == g0[x][y as int]);
                    }
                    assert(row_full(g0, y as int));
                }
                self.clear_row_and_shift(y as i16);
                proof {
                    let yi = y as int;
                    let c = count as int;
                    assert forall|x: int, j: int|
                        1 <= x < w - 1 && 0 <= j < yi + 1
                        implies self.grid()[x][j] == (if j < c + 1 {
                            top_fill(g0, x)
                        } else {
                            kept_upto(g0, x, yi + 1)[j - (c + 1)]
                        }) by {
                        assert(kept_upto(g0, x, yi + 1) == kept_upto(g0, x, yi));
                        if j == 0 {
                            if yi == 0 {
                                assert(self.grid()[x][0] == 0);
                                assert(row_full(g0, 0));
                                assert(top_fill(g0, x) == 0);
                            } else {
                                assert(self.grid()[x][0] == gpre[x][0]);
                                if c == 0 {
                                    assert(full_count_upto(g0, yi) == 0);
                                    lemma_kept_upto_nofull(g0, x, yi);
                                    assert(gpre[x][0] == kept_upto(g0, x, yi)[0]);
                                    assert(kept_upto(g0, x, yi)[0] == g0[x][0]);
                                    assert(!row_full(g0, 0)) by {
                                        if row_full(g0, 0) {
                                            assert(full_count_upto(g0, 0) == 0);
                                            assert(full_count_upto(g0, 1) == 1);
                                            lemma_full_count_monotone(g0, 1, yi);
                                        }
                                    }
                                    assert(top_fill(g0, x) == g0[x][0]);
                                } else {
                                    assert(gpre[x][0] == top_fill(g0, x));
                                }
                            }
                        } else {
                            assert(self.grid()[x][j] == gpre[x][j - 1]);
                        }
                    }
                }
                proof {
                    assert forall|x: int| 1 <= x < w - 1
                        implies (#[trigger] kept_upto(g0, x, y as int + 1)).len() == y - count by {
                        assert(kept_upto(g0, x, y as int + 1) == kept_upto(g0, x, y as int));
                    }
                }
                count += 1;
            } else {
                proof {
                    let yi = y as int;
                    let c = count as int;
                    assert forall|x: int| 1 <= x < w - 1
                        implies gpre[x][yi] == g0[x][yi] by {}
                    assert(!row_full(g0, yi)) by {
                        if row_full(g0, yi) {
                            assert forall|x: int| 1 <= x < w - 1
                                implies gpre[x][yi] != 0 by {
                                assert(g0[x][yi] != 0);
                            }
                            assert(row_full(gpre, yi));
                        }
                    }
                    assert forall|x: int, j: int|
                        1 <= x < w - 1 && 0 <= j < yi + 1
                        implies self.grid()[x][j] == (if j < c {
                            top_fill(g0, x)
                        } else {
                            kept_upto(g0, x, yi + 1)[j - c]
                        }) by {
                        assert(kept_upto(g0, x, yi + 1)
                            == kept_upto(g0, x, yi).push(g0[x][yi]));
                        if j == yi {
                            assert(self.grid()[x][j] == g0[x][yi]);
                            assert(yi >= c);
                            assert(kept_upto(g0, x, yi).len() == yi - c);
                            assert(kept_upto(g0, x, yi + 1)[yi - c] == g0[x][yi]);
                        }
                    }
                    assert forall|x: int| 1 <= x < w - 1
                        implies (#[trigger] kept_upto(g0, x, yi + 1)).len() == yi + 1 - c by {
                        assert(kept_upto(g0, x, yi + 1)
                            == kept_upto(g0, x, yi).push(g0[x][yi]));
                    }
                }
            }
            y += 1;
        }
        proof {
            assert(self.grid() =~~= eliminate_full_rows(g0, w as int, h as int));
        }
        count
    }

    /// Zeroes every interior cell above the bottom wall row, leaving the
    /// wall ring as it is.  Used when a finished round is restarted.
    pub fn reset_interior(&mut self)
        requires
            old(self).wf(),
        ensures
            final(self).wf(),
            final(self).width == old(self).width,
            final(self).height == old(self).height,
            forall|x: int, j: int|
                0 <= x < old(self).width && 0 <= j < old(self).height
                    ==> final(self).grid()[x][j] == (if 1 <= x < old(self).width - 1
                        && j < old(self).height - 1 {
                        0
                    } else {
                        old(self).grid()[x][j]
                    }),
            borders_walled(old(self).grid(), old(self).width as int, old(self).height as int)
                ==> borders_walled(
                    final(self).grid(),
                    old(self).width as int,
                    old(self).height as int,
                ),
    {
        let ghost g0 = self.grid();
        let w = self.width;
        let h = self.height;
        let mut x: usize = 1;
        while x < w - 1
            invariant
                self.wf(),
                self.width == w,
                self.height == h,
                1 <= x <= w - 1,
                forall|i: int, j: int|
                    0 <= i < w && 0 <= j < h
                        ==> self.grid()[i][j] == (if 1 <= i < x && j < h - 1 {
                            0
                        } else {
                            g0[i][j]
                        }),
            decreases w - x,
        {
            let mut y: usize = 0;
            while y < h - 1
                invariant
                    self.wf(),
                    self.width == w,
                    self.height == h,
                    1 <= x < w - 1,
                    y <= h - 1,
                    forall|i: int, j: int|
                        0 <= i < w && 0 <= j < h
                            ==> self.grid()[i][j] == (if (1 <= i < x && j < h - 1)
                                || (i == x && j < y) {
                                0
                            } else {
                                g0[i][j]
                            }),
                decreases h - 1 - y,
            {
                self.set(x as i16, y as i16, 0);
                y += 1;
            }
            x += 1;
        }
    }
}

/// Cascading elimination on a grid whose only full rows are `y1` and
/// `y2` (not necessarily adjacent) removes exactly those two, and every
/// kept row moves down by the number of full rows that lay below it:
/// rows above `y1` by two, rows between by one, rows below `y2` not at
/// all.
pub proof fn lemma_two_full_rows(v: Seq<Seq<i16>>, w: int, h: int, y1: int, y2: int)
    requires
        dims_ok(v, w, h),
        3 <= w,
        2 <= h,
        0 <= y1 < y2 < h - 1,
        row_full(v, y1),
        row_full(v, y2),
        forall|j: int| 0 <= j < h - 1 && j != y1 && j != y2 ==> !(#[trigger] row_full(v, j)),
    ensures
        full_count_upto(v, h - 1) == 2,
        forall|x: int|
            0 <= x < w ==> (#[trigger] kept_upto(v, x, h - 1)).len() == h - 3,
        forall|x: int, j: int|
            0 <= x < w && 0 <= j < y1
                ==> kept_upto(v, x, h - 1)[j] == #[trigger] v[x][j],
        forall|x: int, j: int|
            0 <= x < w && y1 < j < y2
                ==> kept_upto(v, x, h - 1)[j - 1] == #[trigger] v[x][j],
        forall|x: int, j: int|
            0 <= x < w && y2 < j < h - 1
                ==> kept_upto(v, x, h - 1)[j - 2] == #[trigger] v[x][j],
{
    assert forall|x: int| 0 <= x < w implies (#[trigger] kept_upto(v, x, h - 1)).len() == h - 3
        && (forall|j: int| 0 <= j < y1 ==> kept_upto(v, x, h - 1)[j] == #[trigger] v[x][j])
        && (forall|j: int| y1 < j < y2 ==> kept_upto(v, x, h - 1)[j - 1] == #[trigger] v[x][j])
        && (forall|j: int| y2 < j < h - 1 ==> kept_upto(v, x, h - 1)[j - 2] == #[trigger] v[x][j]) by {
        lemma_two_full_rows_col(v, x, y1, y2, h - 1);
    }
    lemma_two_full_rows_col(v, 0, y1, y2, h - 1);
}

/// Induction behind `lemma_two_full_rows`, for one column and a prefix of
/// the scanned rows.
pub proof fn lemma_two_full_rows_col(v: Seq<Seq<i16>>, x: int, y1: int, y2: int, t: int)
    requires
        0 <= y1 < y2,
        row_full(v, y1),
        row_full(v, y2),
        0 <= t,
        forall|j: int| 0 <= j < t && j != y1 && j != y2 ==> !(#[trigger] row_full(v, j)),
    ensures
        full_count_upto(v, t) == (if t > y2 { 2int } else if t > y1 { 1int } else { 0int }),
        kept_upto(v, x, t).len() == t - (if t > y2 { 2int } else if t > y1 { 1int } else { 0int }),
        forall|j: int| 0 <= j < t && j < y1 ==> kept_upto(v, x, t)[j] == #[trigger] v[x][j],
        forall|j: int| y1 < j < t && j < y2 ==> kept_upto(v, x, t)[j - 1] == #[trigger] v[x][j],
        forall|j: int| y2 < j < t ==> kept_upto(v, x, t)[j - 2] == #[trigger] v[x][j],
    decreases t,
{
    if t > 0 {
        lemma_two_full_rows_col(v, x, y1, y2, t - 1);
        if t - 1 == y1 || t - 1 == y2 {
            assert(kept_upto(v, x, t) == kept_upto(v, x, t - 1));
        } else {
            assert(!row_full(v, t - 1));
            assert(kept_upto(v, x, t) == kept_upto(v, x, t - 1).push(v[x][t - 1]));
        }
    }
}

/// Counting full rows over a longer prefix never decreases the count.
pub proof fn lemma_full_count_monotone(v: Seq<Seq<i16>>, t1: int, t2: int)
    requires
        0 <= t1 <= t2,
    ensures
        full_count_upto(v, t1) <= full_count_upto(v, t2),
    decreases t2 - t1,
{
    if t1 < t2 {
        lemma_full_count_monotone(v, t1, t2 - 1);
    }
}

} // verus!

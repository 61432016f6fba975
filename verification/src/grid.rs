//! The terrain heightfield: a square grid of cells addressed by column `i`
//! and row `j`, plus the band of rows that changed since the renderer last
//! uploaded them.
//!
//! The height values themselves are carried as an opaque `H`; nothing here
//! looks inside one, it only decides which cell a read or a write reaches.
use vstd::prelude::*;

verus! {

/// Cells along each side of the grid.
pub const GRID_WIDTH: i32 = 320;
/// Index of the last column (and the last row).
pub const GRID_LAST: i32 = 319;
/// Cells in the whole grid.
pub const GRID_CELLS: usize = 102400;

/// A coordinate pulled back onto the grid: reads past an edge see the edge.
pub open spec fn clamp_cell(v: int) -> int {
    if v < 0 {
        0
    } else if v > GRID_LAST {
        GRID_LAST as int
    } else {
        v
    }
}

/// True for a column/row pair that names a real cell.
pub open spec fn in_grid(i: int, j: int) -> bool {
    0 <= i <= GRID_LAST && 0 <= j <= GRID_LAST
}

/// Row-major position of a cell in the flat height array.
pub open spec fn flat_index(i: int, j: int) -> int {
    j * GRID_WIDTH + i
}

/// What a read of cell `(i, j)` returns: the value of the nearest real cell.
pub open spec fn sampled<H>(cells: Seq<H>, i: int, j: int) -> H {
    cells[flat_index(clamp_cell(i), clamp_cell(j))]
}

/// The grid after writing `v` at `(i, j)`. Writes off the grid are dropped.
pub open spec fn written<H>(cells: Seq<H>, i: int, j: int, v: H) -> Seq<H> {
    if in_grid(i, j) {
        cells.update(flat_index(i, j), v)
    } else {
        cells
    }
}

/// Flat index of an on-grid cell.
pub fn cell_index(i: i32, j: i32) -> (k: usize)
    requires
        in_grid(i as int, j as int),
    ensures
        k as int == flat_index(i as int, j as int),
        k < GRID_CELLS,
{
    (j * GRID_WIDTH + i) as usize
}

/// Column and row of a flat index; the inverse of `cell_index`.
pub fn index_cell(k: i32) -> (ij: (i32, i32))
    requires
        0 <= k < GRID_CELLS,
    ensures
        in_grid(ij.0 as int, ij.1 as int),
        flat_index(ij.0 as int, ij.1 as int) == k,
        ij.0 == k % GRID_WIDTH,
        ij.1 == k / GRID_WIDTH,
{
    (k % GRID_WIDTH, k / GRID_WIDTH)
}

/// Encoding a cell and decoding it again gives back the same cell, and every
/// flat index decodes to the cell that encodes to it.
pub proof fn lemma_cell_index_round_trip(i: int, j: int, k: int)
    requires
        in_grid(i, j),
        0 <= k < GRID_CELLS,
    ensures
        0 <= flat_index(i, j) < GRID_CELLS,
        flat_index(i, j) % GRID_WIDTH as int == i,
        flat_index(i, j) / GRID_WIDTH as int == j,
        flat_index(k % GRID_WIDTH as int, k / GRID_WIDTH as int) == k,
        in_grid(k % GRID_WIDTH as int, k / GRID_WIDTH as int),
{
    assert(flat_index(i, j) % GRID_WIDTH as int == i) by (nonlinear_arith)
        requires
            0 <= i < 320,
            0 <= j < 320,
            flat_index(i, j) == j * 320 + i,
    ;
    assert(flat_index(i, j) / GRID_WIDTH as int == j) by (nonlinear_arith)
        requires
            0 <= i < 320,
            0 <= j < 320,
            flat_index(i, j) == j * 320 + i,
    ;
    assert(0 <= flat_index(i, j) < GRID_CELLS) by (nonlinear_arith)
        requires
            0 <= i < 320,
            0 <= j < 320,
            flat_index(i, j) == j * 320 + i,
    ;
    assert(k / 320 < 320) by (nonlinear_arith)
        requires
            0 <= k < 102400,
    ;
}

/// The terrain grid and its dirty row band.
pub struct Heightfield<H> {
    cells: Vec<H>,
    dirty_lo: i32,
    dirty_hi: i32,
}

impl<H: Copy> Heightfield<H> {
    /// Every height, row-major.
    pub closed spec fn heights(&self) -> Seq<H> {
        self.cells@
    }

    /// First row of the band that needs uploading.
    pub closed spec fn dirty_lo_spec(&self) -> int {
        self.dirty_lo as int
    }

    /// Last row of the band that needs uploading; the band is empty when this
    /// is below `dirty_lo_spec`.
    pub closed spec fn dirty_hi_spec(&self) -> int {
        self.dirty_hi as int
    }

    /// The grid holds exactly one value per cell, and the band edges stay in
    /// the range the clear and the writes can produce.
    pub closed spec fn wf(&self) -> bool {
        &&& self.cells@.len() == GRID_CELLS
        &&& 0 <= self.dirty_lo <= GRID_WIDTH
        &&& -1 <= self.dirty_hi <= GRID_LAST
    }

    /// A grid with every cell at `fill` and an empty band starting at row 0.
    pub fn new(fill: H) -> (g: Self)
        ensures
            g.wf(),
            g.heights() == Seq::new(GRID_CELLS as nat, |k: int| fill),
            g.dirty_lo_spec() == 0,
            g.dirty_hi_spec() == -1,
    {
        let mut cells: Vec<H> = Vec::new();
        let mut k: usize = 0;
        while k < GRID_CELLS
            invariant
                k <= GRID_CELLS,
                cells@.len() == k,
                forall|m: int| 0 <= m < k ==> cells@[m] == fill,
            decreases GRID_CELLS - k,
        {
            cells.push(fill);
            k = k + 1;
        }
        assert(cells@ =~= Seq::new(GRID_CELLS as nat, |m: int| fill));
        Heightfield { cells, dirty_lo: 0, dirty_hi: -1 }
    }

    /// Height of cell `(i, j)`; coordinates off the grid read the nearest
    /// edge cell.
    pub fn cell(&self, i: i32, j: i32) -> (h: H)
        requires
            self.wf(),
        ensures
            h == sampled(self.heights(), i as int, j as int),
    {
        let ci = if i < 0 {
            0
        } else if i > GRID_LAST {
            GRID_LAST
        } else {
            i
        };
        let cj = if j < 0 {
            0
        } else if j > GRID_LAST {
            GRID_LAST
        } else {
            j
        };
        let k = cell_index(ci, cj);
        self.cells[k]
    }

    /// Writes `v` at `(i, j)` and widens the dirty band to cover row `j`.
    /// A write off the grid changes nothing at all.
    pub fn set_cell(&mut self, i: i32, j: i32, v: H)
        requires
            old(self).wf(),
        ensures
            final(self).wf(),
            final(self).heights() == written(old(self).heights(), i as int, j as int, v),
            in_grid(i as int, j as int) ==> band_step(
                (old(self).dirty_lo_spec(), old(self).dirty_hi_spec()),
                j as int,
            ) == (final(self).dirty_lo_spec(), final(self).dirty_hi_spec()),
            !in_grid(i as int, j as int) ==> final(self).dirty_lo_spec() == old(
                self,
            ).dirty_lo_spec() && final(self).dirty_hi_spec() == old(self).dirty_hi_spec(),
    {
        if i < 0 || i > GRID_LAST || j < 0 || j > GRID_LAST {
            return;
        }
        let k = cell_index(i, j);
        self.cells.set(k, v);
        if j < self.dirty_lo {
            self.dirty_lo = j;
        }
        if j > self.dirty_hi {
            self.dirty_hi = j;
        }
    }

    /// Marks every row as needing upload, as after the terrain is generated.
    pub fn mark_all_dirty(&mut self)
        requires
            old(self).wf(),
        ensures
            final(self).wf(),
            final(self).heights() == old(self).heights(),
            final(self).dirty_lo_spec() == 0,
            final(self).dirty_hi_spec() == GRID_LAST,
    {
        self.dirty_lo = 0;
        self.dirty_hi = GRID_LAST;
    }

    /// Empties the band once the renderer has taken the rows.
    pub fn clear_dirty(&mut self)
        requires
            old(self).wf(),
        ensures
            final(self).wf(),
            final(self).heights() == old(self).heights(),
            final(self).dirty_lo_spec() == GRID_WIDTH,
            final(self).dirty_hi_spec() == -1,
    {
        self.dirty_lo = GRID_WIDTH;
        self.dirty_hi = -1;
    }

    /// First row of the dirty band.
    pub fn dirty_lo_row(&self) -> (r: i32)
        ensures
            r == self.dirty_lo_spec(),
    {
        self.dirty_lo
    }

    /// Last row of the dirty band.
    pub fn dirty_hi_row(&self) -> (r: i32)
        ensures
            r == self.dirty_hi_spec(),
    {
        self.dirty_hi
    }
}

/// Reading a cell right after writing it gives back what was written; reading
/// any other cell sees no change. Reads are clamped, so a read past an edge
/// sees a write to that edge cell.
pub proof fn lemma_read_after_write<H>(cells: Seq<H>, i: int, j: int, v: H, k: int, l: int)
    requires
        cells.len() == GRID_CELLS,
    ensures
        sampled(written(cells, i, j, v), k, l) == (if in_grid(i, j) && clamp_cell(k) == i
            && clamp_cell(l) == j {
            v
        } else {
            sampled(cells, k, l)
        }),
{
    let ck = clamp_cell(k);
    let cl = clamp_cell(l);
    lemma_cell_index_round_trip(ck, cl, 0);
    if in_grid(i, j) {
        lemma_cell_index_round_trip(i, j, 0);
        if ck != i || cl != j {
            assert(flat_index(ck, cl) != flat_index(i, j)) by {
                if flat_index(ck, cl) == flat_index(i, j) {
                    assert(flat_index(ck, cl) % GRID_WIDTH as int == flat_index(i, j) % GRID_WIDTH as int);
                    assert(flat_index(ck, cl) / GRID_WIDTH as int == flat_index(i, j) / GRID_WIDTH as int);
                }
            }
        }
    }
}

/// The band after a write to row `j`: widened just enough to cover it.
pub open spec fn band_step(band: (int, int), j: int) -> (int, int) {
    (if j < band.0 {
        j
    } else {
        band.0
    }, if j > band.1 {
        j
    } else {
        band.1
    })
}

/// The band after writes to `rows`, in order, starting from `band`.
pub open spec fn band_after(band: (int, int), rows: Seq<int>) -> (int, int)
    decreases rows.len(),
{
    if rows.len() == 0 {
        band
    } else {
        band_step(band_after(band, rows.drop_last()), rows.last())
    }
}

/// After a clear, the band covers exactly the rows written since: every one
/// of them lies inside it, and its edges are rows that were written. With
/// nothing written it stays empty.
pub proof fn lemma_band_covers_rows(rows: Seq<int>)
    requires
        forall|k: int| 0 <= k < rows.len() ==> 0 <= #[trigger] rows[k] <= GRID_LAST,
    ensures
        rows.len() == 0 ==> band_after((GRID_WIDTH as int, -1), rows) == (GRID_WIDTH as int, -1),
        forall|k: int|
            0 <= k < rows.len() ==> band_after((GRID_WIDTH as int, -1), rows).0 <= #[trigger] rows[k]
                <= band_after((GRID_WIDTH as int, -1), rows).1,
        rows.len() > 0 ==> rows.contains(band_after((GRID_WIDTH as int, -1), rows).0)
            && rows.contains(band_after((GRID_WIDTH as int, -1), rows).1),
    decreases rows.len(),
{
    if rows.len() > 0 {
        let front = rows.drop_last();
        lemma_band_covers_rows(front);
        let b = band_after((GRID_WIDTH as int, -1), front);
        let j = rows.last();
        assert forall|k: int| 0 <= k < rows.len() implies band_after(
            (GRID_WIDTH as int, -1),
            rows,
        ).0 <= #[trigger] rows[k] <= band_after((GRID_WIDTH as int, -1), rows).1 by {
            if k < rows.len() - 1 {
                assert(rows[k] == front[k]);
            }
        }
        if front.len() > 0 {
            let lo = b.0;
            let hi = b.1;
            if !(j < lo) {
                let w = choose|w: int| 0 <= w < front.len() && front[w] == lo;
                assert(rows[w] == lo);
            }
            if !(j > hi) {
                let w = choose|w: int| 0 <= w < front.len() && front[w] == hi;
                assert(rows[w] == hi);
            }
        }
        assert(rows[rows.len() - 1] == j);
    }
}

} // verus!

//! The mathematical model of an accumulation buffer: a square grid of cells,
//! and what clearing it and visiting its cells do to it.

use vstd::prelude::*;
use crate::pixel::{lemma_visit_never_dims, lemma_visits_never_dim, Cell};

verus! {

/// What an accumulation buffer is, as a value: a `width` by `height` grid of
/// cells together with the two intensities that clearing and visiting use.
pub struct Grid {
    pub width: nat,
    pub height: nat,
    pub background: u8,
    pub point: u8,
    pub cells: Map<(int, int), Cell>,
}

impl Grid {
    /// Whether `(x, y)` names a cell of the grid.
    pub open spec fn contains(self, x: int, y: int) -> bool {
        0 <= x < self.width && 0 <= y < self.height
    }

    /// The cells are exactly those at the in-range coordinates.
    pub open spec fn wf(self) -> bool {
        forall|x: int, y: int| #[trigger] self.cells.dom().contains((x, y)) <==> self.contains(x, y)
    }

    /// The grid in which every cell is the background cell.
    pub open spec fn blank(width: nat, height: nat, background: u8, point: u8) -> Grid {
        Grid {
            width,
            height,
            background,
            point,
            cells: Map::new(
                |at: (int, int)| 0 <= at.0 < width && 0 <= at.1 < height,
                |at: (int, int)| Cell::spec_background(background),
            ),
        }
    }

    /// The grid as it is at the start of a frame.
    pub open spec fn cleared(self) -> Grid {
        Grid::blank(self.width, self.height, self.background, self.point)
    }

    /// The grid after a visit to the cell at `(x, y)`.
    pub open spec fn visited(self, x: int, y: int) -> Grid
        recommends
            self.contains(x, y),
    {
        Grid { cells: self.cells.insert((x, y), self.cells[(x, y)].spec_visited(self.point)), ..self }
    }

    /// The grid after a landing at `(x, y)`: a visit when the coordinate is in
    /// range, nothing otherwise.
    pub open spec fn plotted(self, x: int, y: int) -> Grid {
        if self.contains(x, y) {
            self.visited(x, y)
        } else {
            self
        }
    }

    /// Whether `bytes` is the grid written out row after row from the top, the
    /// cells of a row from the left, four bytes a cell in the order red, green,
    /// blue, alpha.
    pub open spec fn encoded_as(self, bytes: Seq<u8>) -> bool {
        &&& bytes.len() == 4 * self.width * self.height
        &&& forall|x: int, y: int|
            self.contains(x, y) ==> (#[trigger] self.cells[(x, y)]).spec_channels() == (
                bytes[4 * (y * self.width + x)],
                bytes[4 * (y * self.width + x) + 1],
                bytes[4 * (y * self.width + x) + 2],
                bytes[4 * (y * self.width + x) + 3],
            )
    }

    /// The grid after the landings of `path`, first to last.
    pub open spec fn traced(self, path: Seq<(u32, u32)>) -> Grid
        decreases path.len(),
    {
        if path.len() == 0 {
            self
        } else {
            self.traced(path.drop_last()).plotted(path.last().0 as int, path.last().1 as int)
        }
    }
}

/// Number of landings of `path` at `(x, y)`.
pub open spec fn hits(path: Seq<(u32, u32)>, x: int, y: int) -> nat
    decreases path.len(),
{
    if path.len() == 0 {
        0
    } else {
        let rest = hits(path.drop_last(), x, y);
        if path.last().0 == x && path.last().1 == y {
            rest + 1
        } else {
            rest
        }
    }
}

/// Landings change cells only: the size and the two intensities stay, and a
/// well-formed grid stays well-formed.
pub proof fn lemma_traced_keeps_shape(grid: Grid, path: Seq<(u32, u32)>)
    ensures
        grid.traced(path).width == grid.width,
        grid.traced(path).height == grid.height,
        grid.traced(path).background == grid.background,
        grid.traced(path).point == grid.point,
        grid.wf() ==> grid.traced(path).wf(),
    decreases path.len(),
{
    if path.len() > 0 {
        lemma_traced_keeps_shape(grid, path.drop_last());
    }
}

/// Tracing one path after another is tracing the two joined.
pub proof fn lemma_traced_concat(grid: Grid, path: Seq<(u32, u32)>, more: Seq<(u32, u32)>)
    ensures
        grid.traced(path + more) == grid.traced(path).traced(more),
    decreases more.len(),
{
    if more.len() == 0 {
        assert(path + more == path);
    } else {
        lemma_traced_concat(grid, path, more.drop_last());
        assert((path + more).drop_last() == path + more.drop_last());
        assert((path + more).last() == more.last());
    }
}

/// The landings of two paths joined are those of the one and those of the other.
pub proof fn lemma_hits_concat(path: Seq<(u32, u32)>, more: Seq<(u32, u32)>, x: int, y: int)
    ensures
        hits(path + more, x, y) == hits(path, x, y) + hits(more, x, y),
    decreases more.len(),
{
    if more.len() == 0 {
        assert(path + more == path);
    } else {
        lemma_hits_concat(path, more.drop_last(), x, y);
        assert((path + more).drop_last() == path + more.drop_last());
        assert((path + more).last() == more.last());
    }
}

/// What a cell holds after a path depends only on what it held before and on
/// how many landings of the path fell on it: it has been visited that often.
pub proof fn lemma_traced_cell(grid: Grid, path: Seq<(u32, u32)>, x: int, y: int)
    requires
        grid.contains(x, y),
    ensures
        grid.traced(path).cells[(x, y)] == grid.cells[(x, y)].spec_visited_times(grid.point, hits(path, x, y)),
    decreases path.len(),
{
    if path.len() > 0 {
        lemma_traced_cell(grid, path.drop_last(), x, y);
        lemma_traced_keeps_shape(grid, path.drop_last());
    }
}

/// After clearing, and before any landing, every cell is the background cell.
pub proof fn lemma_cleared_is_background(grid: Grid, x: int, y: int)
    requires
        grid.contains(x, y),
    ensures
        grid.cleared().traced(Seq::empty()).cells[(x, y)] == Cell::spec_background(grid.background),
        grid.cleared().wf(),
{
}

/// Between any two moments of a frame, the alpha of a cell does not fall. Its
/// red does not fall either once it is at most the point intensity, which is
/// the case of every cell that a landing has changed.
pub proof fn lemma_frame_never_dims(grid: Grid, path: Seq<(u32, u32)>, more: Seq<(u32, u32)>, x: int, y: int)
    requires
        grid.contains(x, y),
    ensures
        grid.traced(path).cells[(x, y)].a <= grid.traced(path + more).cells[(x, y)].a,
        grid.traced(path).cells[(x, y)].r <= grid.point ==> grid.traced(path).cells[(x, y)].r <= grid.traced(
            path + more,
        ).cells[(x, y)].r,
        grid.traced(path).cells[(x, y)].r <= grid.point || grid.traced(path).cells[(x, y)] == grid.cells[(x, y)],
{
    let start = grid.cells[(x, y)];
    let m = hits(path, x, y);
    let n = hits(path + more, x, y);
    lemma_traced_cell(grid, path, x, y);
    lemma_traced_cell(grid, path + more, x, y);
    lemma_hits_concat(path, more, x, y);
    lemma_visits_never_dim(start, grid.point, m, n);
    if m >= 1 {
        lemma_visit_never_dims(start.spec_visited_times(grid.point, (m - 1) as nat), grid.point);
    } else {
        lemma_visits_never_dim(start, grid.point, 0, n);
    }
}

/// A grid is written out in one way only: two byte strings that both encode
/// it are the same string.
pub proof fn lemma_encoding_unique(grid: Grid, a: Seq<u8>, b: Seq<u8>)
    requires
        grid.encoded_as(a),
        grid.encoded_as(b),
    ensures
        a == b,
{
    let w = grid.width as int;
    let h = grid.height as int;
    assert forall|i: int| 0 <= i < a.len() implies a[i] == b[i] by {
        let q = i / 4;
        let c = i % 4;
        assert(w > 0 && q < w * h) by (nonlinear_arith)
            requires
                0 <= i < 4 * w * h,
                q == i / 4,
                w >= 0,
                h >= 0,
        ;
        let y = q / w;
        let x = q % w;
        assert(0 <= x < w && 0 <= y < h && q == y * w + x) by (nonlinear_arith)
            requires
                w > 0,
                0 <= q < w * h,
                x == q % w,
                y == q / w,
        ;
        assert(grid.contains(x, y));
        let channels = grid.cells[(x, y)].spec_channels();
        assert(i == 4 * (y * w + x) + c);
        if c == 0 {
            assert(a[i] == channels.0 && b[i] == channels.0);
        } else if c == 1 {
            assert(a[i] == channels.1 && b[i] == channels.1);
        } else if c == 2 {
            assert(a[i] == channels.2 && b[i] == channels.2);
        } else {
            assert(a[i] == channels.3 && b[i] == channels.3);
        }
    }
    assert(a =~= b);
}

} // verus!

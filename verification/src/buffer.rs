//! The accumulation buffer: a square RGBA raster that is cleared once per
//! frame and then brightened, cell by cell, by the landings of trajectories.

use vstd::prelude::*;
use crate::grid::Grid;
use crate::pixel::Cell;
use crate::raster::{
    raster_bytes, raster_dimensions, raster_extent, raster_get, raster_new, raster_pixels, raster_put, Raster,
};

verus! {

/// A grid of cells with the background level that `reset` writes and the
/// point intensity that visits climb to.
pub struct AccumulationBuffer {
    raster: Raster,
    background: u8,
    point: u8,
}

impl View for AccumulationBuffer {
    type V = Grid;

    closed spec fn view(&self) -> Grid {
        let width = raster_extent(self.raster).0 as nat;
        let height = raster_extent(self.raster).1 as nat;
        Grid {
            width,
            height,
            background: self.background,
            point: self.point,
            cells: Map::new(
                |at: (int, int)| 0 <= at.0 < width && 0 <= at.1 < height,
                |at: (int, int)| Cell::spec_from_channels(raster_pixels(self.raster)[at]),
            ),
        }
    }
}

/// Whether a square of side `span + 1` can be allocated with four bytes a cell.
pub open spec fn spec_fits(span: u32) -> bool {
    4 * (span + 1) * (span + 1) <= isize::MAX
}

impl AccumulationBuffer {
    /// A cleared buffer of side `span + 1`, or `None` when a buffer of that
    /// size cannot be allocated.
    pub fn new(span: u32, background: u8, point: u8) -> (made: Option<AccumulationBuffer>)
        ensures
            made.is_some() <==> spec_fits(span),
            made matches Some(buffer) ==> buffer@ == Grid::blank((span + 1) as nat, (span + 1) as nat, background, point),
    {
        let side: u128 = span as u128 + 1;
        assert(side * side <= 0x1_0000_0000 * 0x1_0000_0000) by (nonlinear_arith)
            requires
                0 <= side <= 0x1_0000_0000,
        ;
        assert(4 * (span + 1) * (span + 1) == 4 * (side * side)) by (nonlinear_arith)
            requires
                side == span + 1,
        ;
        let samples: u128 = 4 * (side * side);
        if samples > isize::MAX as u128 {
            return None;
        }
        assert(side <= u32::MAX) by (nonlinear_arith)
            requires
                4 * (side * side) <= isize::MAX,
                0 <= side,
                isize::MAX < 0x8000_0000_0000_0000,
        ;
        let side: u32 = side as u32;
        assert(4 * side * side == samples) by (nonlinear_arith)
            requires
                samples == 4 * (side * side),
        ;
        let mut buffer = AccumulationBuffer { raster: raster_new(side, side), background, point };
        buffer.reset();
        Some(buffer)
    }

    /// Sets every cell to the background cell.
    pub fn reset(&mut self)
        ensures
            final(self)@ == old(self)@.cleared(),
    {
        let (width, height) = raster_dimensions(&self.raster);
        let fill = Cell::background(self.background).channels();
        let mut y: u32 = 0;
        while y < height
            invariant
                y <= height,
                raster_extent(self.raster) == (width, height),
                self.background == old(self).background,
                self.point == old(self).point,
                forall|i: int, j: int|
                    0 <= i < width && 0 <= j < y ==> #[trigger] raster_pixels(self.raster)[(i, j)] == fill,
            decreases height - y,
        {
            let mut x: u32 = 0;
            while x < width
                invariant
                    x <= width,
                    y < height,
                    raster_extent(self.raster) == (width, height),
                    self.background == old(self).background,
                    self.point == old(self).point,
                    forall|i: int, j: int|
                        0 <= i < width && 0 <= j < y ==> #[trigger] raster_pixels(self.raster)[(i, j)] == fill,
                    forall|i: int| 0 <= i < x ==> #[trigger] raster_pixels(self.raster)[(i, y as int)] == fill,
                decreases width - x,
            {
                raster_put(&mut self.raster, x, y, fill);
                x += 1;
            }
            y += 1;
        }
        assert(self@.cells =~= old(self)@.cleared().cells);
    }

    /// The cells of a buffer are exactly those at its in-range coordinates.
    pub proof fn lemma_view_wf(&self)
        ensures
            self@.wf(),
    {
    }

    /// Number of columns.
    pub fn width(&self) -> (width: u32)
        ensures
            width == self@.width,
    {
        raster_dimensions(&self.raster).0
    }

    /// Number of rows.
    pub fn height(&self) -> (height: u32)
        ensures
            height == self@.height,
    {
        raster_dimensions(&self.raster).1
    }

    /// The level that `reset` writes to the three colour channels.
    pub fn background(&self) -> (level: u8)
        ensures
            level == self@.background,
    {
        self.background
    }

    /// The ceiling of red, and the level that a visit writes to green and blue.
    pub fn point_intensity(&self) -> (level: u8)
        ensures
            level == self@.point,
    {
        self.point
    }

    /// The cell at `(x, y)`, or `None` when the coordinate is out of range.
    pub fn get(&self, x: u32, y: u32) -> (found: Option<Cell>)
        ensures
            found == if self@.contains(x as int, y as int) {
                Some(self@.cells[(x as int, y as int)])
            } else {
                None
            },
    {
        let (width, height) = raster_dimensions(&self.raster);
        if x < width && y < height {
            Some(Cell::from_channels(raster_get(&self.raster, x, y)))
        } else {
            None
        }
    }

    /// Applies the saturating blend to the cell at `(x, y)`.
    pub fn visit(&mut self, x: u32, y: u32)
        requires
            old(self)@.contains(x as int, y as int),
        ensures
            final(self)@ == old(self)@.visited(x as int, y as int),
    {
        let before = Cell::from_channels(raster_get(&self.raster, x, y));
        let after = before.visited(self.point);
        raster_put(&mut self.raster, x, y, after.channels());
        assert(self@.cells =~= old(self)@.visited(x as int, y as int).cells);
    }

    /// Visits the cell at `(x, y)` when there is one and reports whether there
    /// was; a coordinate out of range leaves the buffer as it is.
    pub fn plot(&mut self, x: u32, y: u32) -> (landed: bool)
        ensures
            landed == old(self)@.contains(x as int, y as int),
            final(self)@ == old(self)@.plotted(x as int, y as int),
    {
        let (width, height) = raster_dimensions(&self.raster);
        if x < width && y < height {
            self.visit(x, y);
            true
        } else {
            false
        }
    }

    /// A copy of the cells as bytes: row after row from the top, the cells of a
    /// row from the left, four bytes a cell in the order red, green, blue,
    /// alpha.
    pub fn to_rgba_bytes(&self) -> (bytes: Vec<u8>)
        ensures
            self@.encoded_as(bytes@),
    {
        let bytes = raster_bytes(&self.raster);
        assert forall|x: int, y: int| self@.contains(x, y) implies (#[trigger] self@.cells[(x, y)]).spec_channels() == (
            bytes@[4 * (y * self@.width + x)],
            bytes@[4 * (y * self@.width + x) + 1],
            bytes@[4 * (y * self@.width + x) + 2],
            bytes@[4 * (y * self@.width + x) + 3],
        ) by {
            assert(self@.cells[(x, y)] == Cell::spec_from_channels(raster_pixels(self.raster)[(x, y)]));
        }
        bytes
    }
}

} // verus!

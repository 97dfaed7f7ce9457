//! One cell of the accumulation grid and the saturating blend applied on a visit.

use vstd::prelude::*;

verus! {

/// Amount added to the red channel by one visit, before the ceiling applies.
pub const RED_STEP: u8 = 30;

/// Amount added to the alpha channel by one visit, before the ceiling applies.
pub const ALPHA_STEP: u8 = 32;

/// Four 8-bit channels of one grid cell.
#[derive(Clone, Copy, Debug, PartialEq, Eq, Structural)]
pub struct Cell {
    pub r: u8,
    pub g: u8,
    pub b: u8,
    pub a: u8,
}

/// The smaller of two integers.
pub open spec fn least(a: int, b: int) -> int {
    if a <= b {
        a
    } else {
        b
    }
}

impl Cell {
    /// The cell every frame starts from: the background level on the three
    /// colour channels, fully transparent.
    pub open spec fn spec_background(level: u8) -> Cell {
        Cell { r: level, g: level, b: level, a: 0 }
    }

    /// The cell after one visit: red climbs by [`RED_STEP`] up to the point
    /// intensity, alpha climbs by [`ALPHA_STEP`] up to 255, green and blue are
    /// pinned to the point intensity.
    pub open spec fn spec_visited(self, point: u8) -> Cell {
        Cell {
            r: least(point as int, self.r + RED_STEP) as u8,
            g: point,
            b: point,
            a: least(255, self.a + ALPHA_STEP) as u8,
        }
    }

    /// The cell after `n` visits in a row.
    pub open spec fn spec_visited_times(self, point: u8, n: nat) -> Cell
        decreases n,
    {
        if n == 0 {
            self
        } else {
            self.spec_visited_times(point, (n - 1) as nat).spec_visited(point)
        }
    }

    /// The channels as a tuple, red first.
    pub open spec fn spec_channels(self) -> (u8, u8, u8, u8) {
        (self.r, self.g, self.b, self.a)
    }

    /// The cell made of a tuple of channels, red first.
    pub open spec fn spec_from_channels(px: (u8, u8, u8, u8)) -> Cell {
        Cell { r: px.0, g: px.1, b: px.2, a: px.3 }
    }

    /// The background cell of the given level.
    pub fn background(level: u8) -> (cell: Cell)
        ensures
            cell == Cell::spec_background(level),
    {
        Cell { r: level, g: level, b: level, a: 0 }
    }

    /// The cell after one visit under the given point intensity.
    pub fn visited(self, point: u8) -> (cell: Cell)
        ensures
            cell == self.spec_visited(point),
    {
        let raised: u16 = self.r as u16 + RED_STEP as u16;
        let r: u8 = if raised < point as u16 {
            raised as u8
        } else {
            point
        };
        let lifted: u16 = self.a as u16 + ALPHA_STEP as u16;
        let a: u8 = if lifted < 255 {
            lifted as u8
        } else {
            255
        };
        Cell { r, g: point, b: point, a }
    }

    /// The channels as a tuple, red first.
    pub fn channels(self) -> (px: (u8, u8, u8, u8))
        ensures
            px == self.spec_channels(),
    {
        (self.r, self.g, self.b, self.a)
    }

    /// The cell made of a tuple of channels, red first.
    pub fn from_channels(px: (u8, u8, u8, u8)) -> (cell: Cell)
        ensures
            cell == Cell::spec_from_channels(px),
    {
        Cell { r: px.0, g: px.1, b: px.2, a: px.3 }
    }
}

/// A visit never lowers alpha, and never lowers red on a cell whose red is at
/// most the point intensity. After a visit red is at most the point intensity,
/// so from the second visit on neither channel ever falls.
pub proof fn lemma_visit_never_dims(cell: Cell, point: u8)
    ensures
        cell.spec_visited(point).a >= cell.a,
        cell.spec_visited(point).r <= point,
        cell.r <= point ==> cell.spec_visited(point).r >= cell.r,
        cell.spec_visited(point).g == point,
        cell.spec_visited(point).b == point,
{
}

/// Closed form of `n >= 1` visits in a row: red is `min(point, r + 30 n)`,
/// alpha is `min(255, a + 32 n)`, green and blue are the point intensity.
pub proof fn lemma_visited_times(cell: Cell, point: u8, n: nat)
    requires
        n >= 1,
    ensures
        cell.spec_visited_times(point, n).r == least(point as int, cell.r + RED_STEP * n),
        cell.spec_visited_times(point, n).a == least(255, cell.a + ALPHA_STEP * n),
        cell.spec_visited_times(point, n).g == point,
        cell.spec_visited_times(point, n).b == point,
    decreases n,
{
    if n > 1 {
        lemma_visited_times(cell, point, (n - 1) as nat);
    } else {
        assert(cell.spec_visited_times(point, 0) == cell);
    }
}

/// Across a run of visits to one cell, alpha never falls, and red never falls
/// either provided the run starts after a visit or from a red that is at most
/// the point intensity.
pub proof fn lemma_visits_never_dim(cell: Cell, point: u8, m: nat, n: nat)
    requires
        m <= n,
    ensures
        cell.spec_visited_times(point, m).a <= cell.spec_visited_times(point, n).a,
        (m >= 1 || cell.r <= point) ==> cell.spec_visited_times(point, m).r
            <= cell.spec_visited_times(point, n).r,
    decreases n - m,
{
    if m < n {
        lemma_visits_never_dim(cell, point, m, (n - 1) as nat);
        let before = cell.spec_visited_times(point, (n - 1) as nat);
        lemma_visit_never_dims(before, point);
        if n - 1 >= 1 {
            lemma_visited_times(cell, point, (n - 1) as nat);
        }
    }
}

} // verus!

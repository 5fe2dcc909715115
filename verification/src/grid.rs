//! The playing field: its bounds and the wrap-around rule.

use vstd::prelude::*;

verus! {

/// A cell of the grid, by column and row.
#[derive(Clone, Copy, Debug, Hash, PartialEq, Eq, Structural)]
pub struct PositionInGrid {
    pub x: i32,
    pub y: i32,
}

impl Default for PositionInGrid {
    fn default() -> (r: Self)
        ensures
            r.x == 0,
            r.y == 0,
    {
        PositionInGrid { x: 0, y: 0 }
    }
}

impl PositionInGrid {
    /// The cell as a pair of its column and row.
    pub open spec fn cell(self) -> (i32, i32) {
        (self.x, self.y)
    }

    /// The cell as a pair, the form in which a set of cells holds it.
    pub fn to_cell(&self) -> (c: (i32, i32))
        ensures
            c == self.cell(),
    {
        (self.x, self.y)
    }
}

/// The largest width or height a grid may have, so that every column and
/// row, and one step beyond them, is an `i32`.
pub const MAX_SIDE: usize = 0x4000_0000;

/// One axis of the wrap rule: a value below `min` becomes `max`, a value
/// above `max` becomes `min`, any other value stays.
pub open spec fn wrap_axis(v: int, min: int, max: int) -> int {
    if v < min {
        max
    } else if v > max {
        min
    } else {
        v
    }
}

/// The size of the grid in cells. Columns run from `min_x` to `max_x`,
/// rows from `min_y` to `max_y`, with the origin just above the middle:
/// a side of 10 spans -5 to 4.
#[derive(Clone, Copy, Debug)]
pub struct GridConfig {
    pub width: usize,
    pub height: usize,
}

impl Default for GridConfig {
    fn default() -> (r: Self)
        ensures
            r.width == 10,
            r.height == 10,
            r.wf(),
    {
        GridConfig { width: 10, height: 10 }
    }
}

impl GridConfig {
    /// A grid has at least one cell on each axis and at most `MAX_SIDE`.
    pub open spec fn wf(self) -> bool {
        &&& 1 <= self.width <= MAX_SIDE
        &&& 1 <= self.height <= MAX_SIDE
    }

    /// The leftmost column.
    pub open spec fn spec_min_x(self) -> int {
        -(self.width as int / 2)
    }

    /// The rightmost column.
    pub open spec fn spec_max_x(self) -> int {
        self.spec_min_x() + self.width - 1
    }

    /// The lowest row.
    pub open spec fn spec_min_y(self) -> int {
        -(self.height as int / 2)
    }

    /// The highest row.
    pub open spec fn spec_max_y(self) -> int {
        self.spec_min_y() + self.height - 1
    }

    /// Whether `pos` lies inside the grid.
    pub open spec fn contains(self, pos: PositionInGrid) -> bool {
        &&& self.spec_min_x() <= pos.x <= self.spec_max_x()
        &&& self.spec_min_y() <= pos.y <= self.spec_max_y()
    }

    /// The cell that `pos` wraps to, each axis by itself.
    pub open spec fn wrap_spec(self, pos: PositionInGrid) -> PositionInGrid {
        PositionInGrid {
            x: wrap_axis(pos.x as int, self.spec_min_x(), self.spec_max_x()) as i32,
            y: wrap_axis(pos.y as int, self.spec_min_y(), self.spec_max_y()) as i32,
        }
    }

    /// Whether the sizes are ones a grid may have.
    pub fn is_valid(&self) -> (ok: bool)
        ensures
            ok == self.wf(),
    {
        1 <= self.width && self.width <= MAX_SIDE && 1 <= self.height && self.height <= MAX_SIDE
    }

    /// The leftmost column.
    pub fn min_x(&self) -> (r: i32)
        requires
            self.wf(),
        ensures
            r == self.spec_min_x(),
    {
        let half: usize = self.width / 2;
        -(half as i32)
    }

    /// The rightmost column.
    pub fn max_x(&self) -> (r: i32)
        requires
            self.wf(),
        ensures
            r == self.spec_max_x(),
    {
        let half: usize = self.width / 2;
        let rest: usize = self.width - half - 1;
        rest as i32
    }

    /// The lowest row.
    pub fn min_y(&self) -> (r: i32)
        requires
            self.wf(),
        ensures
            r == self.spec_min_y(),
    {
        let half: usize = self.height / 2;
        -(half as i32)
    }

    /// The highest row.
    pub fn max_y(&self) -> (r: i32)
        requires
            self.wf(),
        ensures
            r == self.spec_max_y(),
    {
        let half: usize = self.height / 2;
        let rest: usize = self.height - half - 1;
        rest as i32
    }

    /// Whether `pos` lies inside the grid.
    pub fn in_bounds(&self, pos: &PositionInGrid) -> (r: bool)
        requires
            self.wf(),
        ensures
            r == self.contains(*pos),
    {
        self.min_x() <= pos.x && pos.x <= self.max_x() && self.min_y() <= pos.y && pos.y
            <= self.max_y()
    }

    /// Maps any cell onto the grid: a column left of the grid becomes the
    /// rightmost column, one right of it the leftmost, and likewise for
    /// rows. A cell inside the grid stays where it is.
    pub fn wrap(&self, pos: PositionInGrid) -> (r: PositionInGrid)
        requires
            self.wf(),
        ensures
            r == self.wrap_spec(pos),
            self.contains(r),
            self.contains(pos) ==> r == pos,
    {
        let mut r = pos;
        fix_pos(&mut r, self);
        r
    }
}

/// Wraps `pos` onto the grid in place.
pub fn fix_pos(pos: &mut PositionInGrid, config: &GridConfig)
    requires
        config.wf(),
    ensures
        *final(pos) == config.wrap_spec(*old(pos)),
        config.contains(*final(pos)),
        config.contains(*old(pos)) ==> *final(pos) == *old(pos),
{
    let min_x: i32 = config.min_x();
    let max_x: i32 = config.max_x();
    let min_y: i32 = config.min_y();
    let max_y: i32 = config.max_y();
    if pos.x < min_x {
        pos.x = max_x;
    } else if pos.x > max_x {
        pos.x = min_x;
    }
    if pos.y < min_y {
        pos.y = max_y;
    } else if pos.y > max_y {
        pos.y = min_y;
    }
}

/// Wrapping is idempotent: a wrapped cell wraps to itself.
pub proof fn lemma_wrap_idempotent(config: GridConfig, pos: PositionInGrid)
    requires
        config.wf(),
    ensures
        config.wrap_spec(config.wrap_spec(pos)) == config.wrap_spec(pos),
        config.contains(config.wrap_spec(pos)),
{
}

} // verus!

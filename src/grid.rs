//! The bag: a fixed box of cells.
use vstd::prelude::*;
use crate::geometry::{GridCell, IVec3, Point};

verus! {

/// Width of the default bag.
pub const BAG_WIDTH: i32 = 7;

/// Height of the default bag.
pub const BAG_HEIGHT: i32 = 2;

/// Depth of the default bag.
pub const BAG_DEPTH: i32 = 7;

/// The box `[0, width) x [0, height) x [0, depth)`.
#[derive(Clone, Copy, Debug, PartialEq, Eq, Structural, Hash)]
pub struct Grid {
    pub width: i32,
    pub height: i32,
    pub depth: i32,
}

impl Grid {
    pub open spec fn wf(&self) -> bool {
        self.width > 0 && self.height > 0 && self.depth > 0
    }

    /// `c` lies inside the box.
    pub open spec fn holds(&self, c: Point) -> bool {
        &&& 0 <= c.0 < self.width as int
        &&& 0 <= c.1 < self.height as int
        &&& 0 <= c.2 < self.depth as int
    }

    pub fn new(width: i32, height: i32, depth: i32) -> (r: Grid)
        requires
            width > 0,
            height > 0,
            depth > 0,
        ensures
            r.wf(),
            r.width == width,
            r.height == height,
            r.depth == depth,
    {
        Grid { width, height, depth }
    }

    /// The bag of the game: seven by two by seven cells.
    pub fn default_bag() -> (r: Grid)
        ensures
            r.wf(),
            r.width == BAG_WIDTH,
            r.height == BAG_HEIGHT,
            r.depth == BAG_DEPTH,
    {
        Grid { width: BAG_WIDTH, height: BAG_HEIGHT, depth: BAG_DEPTH }
    }

    /// Whether the absolute cell `c` lies inside the box.
    pub fn contains(&self, c: &GridCell) -> (r: bool)
        ensures
            r == self.holds(c@),
    {
        0 <= c.x && c.x < self.width as i64 && 0 <= c.y && c.y < self.height as i64 && 0 <= c.z
            && c.z < self.depth as i64
    }

    /// Whether `cell` lies inside the box.
    pub fn in_bounds(&self, cell: IVec3) -> (r: bool)
        ensures
            r == self.holds(cell@),
    {
        0 <= cell.x && cell.x < self.width && 0 <= cell.y && cell.y < self.height && 0 <= cell.z
            && cell.z < self.depth
    }
}

} // verus!

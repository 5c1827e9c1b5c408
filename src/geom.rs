//! Positions and half-open rectangles.
use vstd::prelude::*;

verus! {

/// A cell of a 2D surface: `x` grows rightwards, `y` downwards, from the top-left origin.
#[derive(Clone, Copy, Debug, PartialEq, Eq, Structural)]
pub struct Pos {
    pub x: usize,
    pub y: usize,
}

impl Pos {
    /// The position `(x, y)`.
    pub fn new(x: usize, y: usize) -> (r: Pos)
        ensures
            r.x == x,
            r.y == y,
    {
        Pos { x, y }
    }
}

/// A rectangle, inclusive of `left` and `top`, exclusive of `right` and `bottom`.
///
/// When `left >= right` or `top >= bottom` the rectangle holds no position.
#[derive(Clone, Copy, Debug, PartialEq, Eq, Structural)]
pub struct Rect {
    pub left: usize,
    pub top: usize,
    pub right: usize,
    pub bottom: usize,
}

impl Rect {
    /// Whether the cell `(x, y)` lies in the rectangle.
    pub open spec fn contains(self, x: int, y: int) -> bool {
        self.left <= x < self.right && self.top <= y < self.bottom
    }

    /// The number of columns of the rectangle.
    pub open spec fn width_spec(self) -> int {
        if self.left <= self.right { self.right - self.left } else { 0 }
    }

    /// The number of rows of the rectangle.
    pub open spec fn height_spec(self) -> int {
        if self.top <= self.bottom { self.bottom - self.top } else { 0 }
    }

    /// The position of a cell of the rectangle in its row-major order (rows outer, columns inner).
    pub open spec fn row_major_index(self, x: int, y: int) -> int {
        (y - self.top) * self.width_spec() + (x - self.left)
    }

    /// The rectangle from its left, top, right and bottom edges.
    pub fn from_ltrb(left: usize, top: usize, right: usize, bottom: usize) -> (r: Rect)
        ensures
            r == (Rect { left, top, right, bottom }),
    {
        Rect { left, top, right, bottom }
    }

    /// The rectangle from its left and top edges and its size.
    pub fn from_ltwh(left: usize, top: usize, width: usize, height: usize) -> (r: Rect)
        requires
            left + width <= usize::MAX,
            top + height <= usize::MAX,
        ensures
            r == (Rect { left, top, right: (left + width) as usize, bottom: (top + height) as usize }),
    {
        Rect { left, top, right: left + width, bottom: top + height }
    }

    /// The rectangle's top-left corner.
    pub fn top_left(&self) -> (r: Pos)
        ensures
            r == (Pos { x: self.left, y: self.top }),
    {
        Pos { x: self.left, y: self.top }
    }
}

} // verus!

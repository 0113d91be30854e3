//! Pixel rectangles.

use vstd::prelude::*;

verus! {

/// A rectangle in physical pixels: a top-left corner and a size.
#[derive(Debug, Clone, Copy, PartialEq, Eq, Structural)]
pub struct Rect {
    pub x: i32,
    pub y: i32,
    pub width: u32,
    pub height: u32,
}

impl Rect {
    /// A point lies in a rectangle when it is at or past the top-left corner and before
    /// the right and bottom edges.
    pub open spec fn has(self, x: int, y: int) -> bool {
        self.x <= x < self.x + self.width && self.y <= y < self.y + self.height
    }

    /// The two rectangles overlap in both directions.
    pub open spec fn overlaps(self, other: Rect) -> bool {
        &&& self.x < other.x + other.width
        &&& self.x + self.width > other.x
        &&& self.y < other.y + other.height
        &&& self.y + self.height > other.y
    }

    /// The far edges are representable coordinates.
    pub open spec fn fits(self) -> bool {
        self.x + self.width <= i32::MAX && self.y + self.height <= i32::MAX
    }

    /// Whether the far edges are representable coordinates.
    pub fn can_fit(&self) -> (b: bool)
        ensures
            b == self.fits(),
    {
        self.x as i64 + self.width as i64 <= i32::MAX as i64 && self.y as i64 + self.height as i64
            <= i32::MAX as i64
    }

    pub open spec fn right_spec(self) -> int {
        self.x + self.width
    }

    pub open spec fn bottom_spec(self) -> int {
        self.y + self.height
    }

    pub fn new(x: i32, y: i32, width: u32, height: u32) -> (r: Self)
        ensures
            r == (Rect { x, y, width, height }),
    {
        Rect { x, y, width, height }
    }

    /// The zero rectangle at the origin.
    pub fn zero() -> (r: Self)
        ensures
            r == (Rect { x: 0, y: 0, width: 0, height: 0 }),
    {
        Rect { x: 0, y: 0, width: 0, height: 0 }
    }

    /// The first column past the rectangle.
    pub fn right(&self) -> (edge: i32)
        requires
            self.x + self.width <= i32::MAX,
        ensures
            edge == self.right_spec(),
    {
        (self.x as i64 + self.width as i64) as i32
    }

    /// The first row past the rectangle.
    pub fn bottom(&self) -> (edge: i32)
        requires
            self.y + self.height <= i32::MAX,
        ensures
            edge == self.bottom_spec(),
    {
        (self.y as i64 + self.height as i64) as i32
    }

    pub open spec fn center_x_spec(self) -> int {
        self.x + self.width / 2
    }

    pub open spec fn center_y_spec(self) -> int {
        self.y + self.height / 2
    }

    pub fn center_x(&self) -> (c: i32)
        requires
            self.x + self.width <= i32::MAX,
        ensures
            c == self.center_x_spec(),
    {
        (self.x as i64 + (self.width / 2) as i64) as i32
    }

    pub fn center_y(&self) -> (c: i32)
        requires
            self.y + self.height <= i32::MAX,
        ensures
            c == self.center_y_spec(),
    {
        (self.y as i64 + (self.height / 2) as i64) as i32
    }

    pub fn contains(&self, x: i32, y: i32) -> (inside: bool)
        ensures
            inside == self.has(x as int, y as int),
    {
        x >= self.x && y >= self.y && (x as i64) < self.x as i64 + self.width as i64 && (y as i64)
            < self.y as i64 + self.height as i64
    }

    pub open spec fn inset_spec(self, dx: u32, dy: u32) -> Rect {
        Rect {
            x: (self.x + dx) as i32,
            y: (self.y + dy) as i32,
            width: (if self.width >= 2 * dx { self.width - 2 * dx } else { 0 }) as u32,
            height: (if self.height >= 2 * dy { self.height - 2 * dy } else { 0 }) as u32,
        }
    }

    /// The rectangle shrunk by `dx` on the left and right and `dy` above and below,
    /// down to nothing.
    pub fn inset(&self, dx: u32, dy: u32) -> (r: Self)
        requires
            self.x + dx <= i32::MAX,
            self.y + dy <= i32::MAX,
            2 * dx <= u32::MAX,
            2 * dy <= u32::MAX,
        ensures
            r == self.inset_spec(dx, dy),
    {
        Rect {
            x: (self.x as i64 + dx as i64) as i32,
            y: (self.y as i64 + dy as i64) as i32,
            width: self.width.saturating_sub(2 * dx),
            height: self.height.saturating_sub(2 * dy),
        }
    }

    /// Whether two rectangles share any area. Touching edges do not count.
    pub fn intersects(&self, other: Rect) -> (b: bool)
        ensures
            b == self.overlaps(other),
    {
        (self.x as i64) < other.x as i64 + other.width as i64 && self.x as i64 + self.width as i64
            > other.x as i64 && (self.y as i64) < other.y as i64 + other.height as i64
            && self.y as i64 + self.height as i64 > other.y as i64
    }
}

/// Two rectangles that share a point intersect.
pub proof fn law_common_point_intersects(a: Rect, b: Rect, x: int, y: int)
    requires
        a.has(x, y),
        b.has(x, y),
    ensures
        a.overlaps(b),
{
}

} // verus!

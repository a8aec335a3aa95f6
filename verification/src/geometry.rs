//! Integer 2D primitives: points, sizes, grid shapes and rectangles
//! with clipping.

use vstd::prelude::*;

verus! {

/// A 2D position.  Coordinates are signed so that clipping math may
/// produce negative intermediate positions.
#[derive(Clone, Copy, Debug, PartialEq, Eq, Structural)]
pub struct Point {
    pub x: i32,
    pub y: i32,
}

impl Point {
    /// The origin.
    pub fn zero() -> (p: Point)
        ensures
            p == (Point { x: 0, y: 0 }),
    {
        Point { x: 0, y: 0 }
    }
}

/// The extent of a rectangle, tile or bitmap.
#[derive(Clone, Copy, Debug, Hash, PartialEq, Eq, Structural)]
pub struct Size {
    pub width: u32,
    pub height: u32,
}

impl Size {
    /// The number of pixels a buffer of this size holds.
    pub open spec fn area(self) -> int {
        self.width * self.height
    }

    /// The empty extent.
    pub fn zero() -> (s: Size)
        ensures
            s == (Size { width: 0u32, height: 0u32 }),
    {
        Size { width: 0, height: 0 }
    }
}

/// The rows-by-columns grid of a tilemap.
#[derive(Clone, Copy, Debug, PartialEq, Eq, Structural)]
pub struct Shape {
    pub rows: u32,
    pub columns: u32,
}

/// An axis-aligned rectangle: a top-left corner and a size.  The
/// right and bottom edges are exclusive.
#[derive(Clone, Copy, Debug, PartialEq, Eq, Structural)]
pub struct Rect {
    pub top_left: Point,
    pub size: Size,
}

/// The larger of two mathematical integers.
pub open spec fn int_max(a: int, b: int) -> int {
    if a >= b {
        a
    } else {
        b
    }
}

/// The smaller of two mathematical integers.
pub open spec fn int_min(a: int, b: int) -> int {
    if a <= b {
        a
    } else {
        b
    }
}

impl Rect {
    /// The inclusive left edge.
    pub open spec fn spec_left(self) -> int {
        self.top_left.x as int
    }

    /// The exclusive right edge.
    pub open spec fn spec_right(self) -> int {
        self.top_left.x + self.size.width
    }

    /// The inclusive top edge.
    pub open spec fn spec_top(self) -> int {
        self.top_left.y as int
    }

    /// The exclusive bottom edge.
    pub open spec fn spec_bottom(self) -> int {
        self.top_left.y + self.size.height
    }

    /// Whether the point `(x, y)` lies inside the rectangle.
    pub open spec fn spec_contains(self, x: int, y: int) -> bool {
        self.spec_left() <= x < self.spec_right() && self.spec_top() <= y < self.spec_bottom()
    }

    /// Whether the rectangle covers no points at all.
    pub open spec fn spec_is_empty(self) -> bool {
        self.size.width == 0 || self.size.height == 0
    }

    /// The intersection of two rectangles: `Some` exactly when the
    /// overlap has positive area.
    pub open spec fn spec_intersect(self, other: Rect) -> Option<Rect> {
        let l = int_max(self.spec_left(), other.spec_left());
        let r = int_min(self.spec_right(), other.spec_right());
        let t = int_max(self.spec_top(), other.spec_top());
        let b = int_min(self.spec_bottom(), other.spec_bottom());
        if l < r && t < b {
            Some(
                Rect {
                    top_left: Point { x: l as i32, y: t as i32 },
                    size: Size { width: (r - l) as u32, height: (b - t) as u32 },
                },
            )
        } else {
            None
        }
    }

    /// Builds the rectangle with the given corner and extent.
    pub fn from_point_and_size(top_left: Point, size: Size) -> (r: Rect)
        ensures
            r == (Rect { top_left, size }),
    {
        Rect { top_left, size }
    }

    /// The empty rectangle at the origin.
    pub fn zero() -> (r: Rect)
        ensures
            r.spec_left() == 0 && r.spec_top() == 0,
            r.size.width == 0 && r.size.height == 0,
    {
        Rect { top_left: Point { x: 0, y: 0 }, size: Size { width: 0, height: 0 } }
    }

    /// The smallest rectangle that has two of its corners at the
    /// given points.
    pub fn from_points(p1: Point, p2: Point) -> (r: Rect)
        ensures
            r.spec_left() == int_min(p1.x as int, p2.x as int),
            r.spec_top() == int_min(p1.y as int, p2.y as int),
            r.spec_right() == int_max(p1.x as int, p2.x as int),
            r.spec_bottom() == int_max(p1.y as int, p2.y as int),
    {
        let left: i32 = if p1.x <= p2.x {
            p1.x
        } else {
            p2.x
        };
        let right: i32 = if p1.x >= p2.x {
            p1.x
        } else {
            p2.x
        };
        let top: i32 = if p1.y <= p2.y {
            p1.y
        } else {
            p2.y
        };
        let bottom: i32 = if p1.y >= p2.y {
            p1.y
        } else {
            p2.y
        };
        let width: u32 = ((right as i64) - (left as i64)) as u32;
        let height: u32 = ((bottom as i64) - (top as i64)) as u32;
        Rect { top_left: Point { x: left, y: top }, size: Size { width, height } }
    }

    /// The top-left corner.
    pub fn top_left(&self) -> (p: Point)
        ensures
            p == self.top_left,
    {
        self.top_left
    }

    /// The extent.
    pub fn size(&self) -> (s: Size)
        ensures
            s == self.size,
    {
        self.size
    }

    /// The width of the rectangle.
    pub fn width(&self) -> (w: u32)
        ensures
            w == self.size.width,
    {
        self.size.width
    }

    /// The height of the rectangle.
    pub fn height(&self) -> (h: u32)
        ensures
            h == self.size.height,
    {
        self.size.height
    }

    /// The inclusive left edge.
    pub fn left(&self) -> (l: i32)
        ensures
            l == self.spec_left(),
    {
        self.top_left.x
    }

    /// The inclusive top edge.
    pub fn top(&self) -> (t: i32)
        ensures
            t == self.spec_top(),
    {
        self.top_left.y
    }

    /// The exclusive right edge, widened so that it exists for every
    /// rectangle.
    pub fn right(&self) -> (r: i64)
        ensures
            r == self.spec_right(),
    {
        self.top_left.x as i64 + self.size.width as i64
    }

    /// The exclusive bottom edge, widened so that it exists for every
    /// rectangle.
    pub fn bottom(&self) -> (b: i64)
        ensures
            b == self.spec_bottom(),
    {
        self.top_left.y as i64 + self.size.height as i64
    }

    /// Clips this rectangle against another.  The result is `Some`
    /// exactly when the overlap has positive area; a degenerate
    /// zero-area overlap is reported as `None`.
    pub fn intersected(&self, other: &Rect) -> (res: Option<Rect>)
        ensures
            res == self.spec_intersect(*other),
    {
        let l: i64 = if self.top_left.x >= other.top_left.x {
            self.top_left.x as i64
        } else {
            other.top_left.x as i64
        };
        let t: i64 = if self.top_left.y >= other.top_left.y {
            self.top_left.y as i64
        } else {
            other.top_left.y as i64
        };
        let self_right = self.right();
        let other_right = other.right();
        let r: i64 = if self_right <= other_right {
            self_right
        } else {
            other_right
        };
        let self_bottom = self.bottom();
        let other_bottom = other.bottom();
        let b: i64 = if self_bottom <= other_bottom {
            self_bottom
        } else {
            other_bottom
        };
        if l < r && t < b {
            Some(
                Rect {
                    top_left: Point { x: l as i32, y: t as i32 },
                    size: Size { width: (r - l) as u32, height: (b - t) as u32 },
                },
            )
        } else {
            None
        }
    }
}

/// Rectangle intersection does not depend on the order of its two
/// arguments.
pub proof fn lemma_rect_intersection_commutes(a: Rect, b: Rect)
    ensures
        a.spec_intersect(b) == b.spec_intersect(a),
{
}

/// A rectangle of positive area clipped against itself is unchanged.
pub proof fn lemma_rect_intersection_self(a: Rect)
    requires
        !a.spec_is_empty(),
    ensures
        a.spec_intersect(a) == Some(a),
{
}

/// A point inside the intersection of two rectangles is exactly a
/// point inside both.
pub proof fn lemma_rect_intersection_contains(a: Rect, b: Rect, x: int, y: int)
    ensures
        match a.spec_intersect(b) {
            Some(r) => r.spec_contains(x, y) <==> a.spec_contains(x, y) && b.spec_contains(x, y),
            None => !(a.spec_contains(x, y) && b.spec_contains(x, y)),
        },
{
}

/// The row-major index of the pixel `(x, y)` in a flat buffer of the
/// given width.
pub open spec fn spec_index(width: int, x: int, y: int) -> int {
    y * width + x
}

/// A pixel inside a `width` by `height` extent has its row-major
/// index inside the buffer.
pub proof fn lemma_index_bounds(width: int, height: int, x: int, y: int)
    requires
        0 <= x < width,
        0 <= y < height,
    ensures
        0 <= spec_index(width, x, y) < width * height,
{
    assert(0 <= y * width + x < width * height) by (nonlinear_arith)
        requires
            0 <= x < width,
            0 <= y < height,
    ;
}

/// Row-major indexing is inverted by division and remainder.
pub proof fn lemma_index_decompose(width: int, x: int, y: int)
    requires
        0 <= x < width,
        0 <= y,
    ensures
        spec_index(width, x, y) / width == y,
        spec_index(width, x, y) % width == x,
{
    assert((y * width + x) / width == y && (y * width + x) % width == x) by (nonlinear_arith)
        requires
            0 <= x < width,
            0 <= y,
    ;
}

/// A buffer index below `width * height` decodes to an in-bounds
/// pixel by division and remainder.
pub proof fn lemma_index_recompose(width: int, height: int, j: int)
    requires
        0 <= j < width * height,
        0 < width,
    ensures
        0 <= j % width < width,
        0 <= j / width < height,
        spec_index(width, j % width, j / width) == j,
{
    assert(0 <= j % width < width && 0 <= j / width < height && (j / width) * width + j % width
        == j) by (nonlinear_arith)
        requires
            0 <= j < width * height,
            0 < width,
    ;
}

/// Maps an in-bounds point to its row-major index in a flat pixel
/// buffer of the given size; out-of-bounds points map to `None`.
pub fn point_to_index(p: Point, size: Size) -> (res: Option<usize>)
    requires
        size.area() <= usize::MAX,
    ensures
        match res {
            Some(i) => 0 <= p.x < size.width && 0 <= p.y < size.height && i == p.y * size.width
                + p.x,
            None => !(0 <= p.x < size.width && 0 <= p.y < size.height),
        },
{
    if p.x < 0 || p.y < 0 {
        return None;
    }
    let x = p.x as u64;
    let y = p.y as u64;
    if x >= size.width as u64 || y >= size.height as u64 {
        return None;
    }
    proof {
        assert(y * size.width + x < size.width * size.height) by (nonlinear_arith)
            requires
                0 <= x < size.width,
                0 <= y < size.height,
        ;
    }
    let idx: u64 = y * (size.width as u64) + x;
    Some(idx as usize)
}

} // verus!

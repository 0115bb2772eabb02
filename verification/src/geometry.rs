//! Points, sizes and rectangles of the global logical space, and output
//! transforms.
use vstd::prelude::*;

verus! {

/// A position in logical pixels.
#[derive(Clone, Copy, Debug, PartialEq, Eq, Structural)]
pub struct Point {
    pub x: i32,
    pub y: i32,
}

/// An extent in pixels.
#[derive(Clone, Copy, Debug, PartialEq, Eq, Structural)]
pub struct Size {
    pub w: i32,
    pub h: i32,
}

/// An axis-aligned rectangle.
#[derive(Clone, Copy, Debug, PartialEq, Eq, Structural)]
pub struct Rectangle {
    pub loc: Point,
    pub size: Size,
}

/// `n` moved to the nearest value that an `i32` can hold.
pub open spec fn clamp_i32(n: int) -> int {
    if n > i32::MAX {
        i32::MAX as int
    } else if n < i32::MIN {
        i32::MIN as int
    } else {
        n
    }
}

/// The sum of two coordinates, kept within `i32`.
pub fn saturating_sum(a: i32, b: i32) -> (r: i32)
    ensures
        r == clamp_i32(a + b),
{
    let sum: i64 = a as i64 + b as i64;
    if sum > i32::MAX as i64 {
        i32::MAX
    } else if sum < i32::MIN as i64 {
        i32::MIN
    } else {
        sum as i32
    }
}

/// The difference of two coordinates, kept within `i32`.
pub fn saturating_difference(a: i32, b: i32) -> (r: i32)
    ensures
        r == clamp_i32(a - b),
{
    let difference: i64 = a as i64 - b as i64;
    if difference > i32::MAX as i64 {
        i32::MAX
    } else if difference < i32::MIN as i64 {
        i32::MIN
    } else {
        difference as i32
    }
}

impl Point {
    /// The point that is `other` away from this one.
    pub open spec fn offset_spec(self, other: Point) -> Point {
        Point {
            x: clamp_i32(self.x + other.x) as i32,
            y: clamp_i32(self.y + other.y) as i32,
        }
    }

    /// The point as seen from `other`.
    pub open spec fn relative_spec(self, other: Point) -> Point {
        Point {
            x: clamp_i32(self.x - other.x) as i32,
            y: clamp_i32(self.y - other.y) as i32,
        }
    }

    /// The point as seen from `other`, within the range of the coordinates.
    pub fn relative(self, other: Point) -> (r: Point)
        ensures
            r == self.relative_spec(other),
    {
        Point {
            x: saturating_difference(self.x, other.x),
            y: saturating_difference(self.y, other.y),
        }
    }

    /// The point that is `other` away from this one, within the range of the
    /// coordinates.
    pub fn offset(self, other: Point) -> (r: Point)
        ensures
            r == self.offset_spec(other),
    {
        Point { x: saturating_sum(self.x, other.x), y: saturating_sum(self.y, other.y) }
    }
}

impl Rectangle {
    /// The rectangle of this size at the origin.
    pub open spec fn from_size_spec(size: Size) -> Rectangle {
        Rectangle { loc: Point { x: 0, y: 0 }, size }
    }

    /// The rectangle of this size at the origin.
    pub fn from_size(size: Size) -> (r: Rectangle)
        ensures
            r == Rectangle::from_size_spec(size),
    {
        Rectangle { loc: Point { x: 0, y: 0 }, size }
    }

    /// First column right of the rectangle.
    pub open spec fn right_spec(self) -> int {
        clamp_i32(self.loc.x + self.size.w)
    }

    /// First row below the rectangle.
    pub open spec fn bottom_spec(self) -> int {
        clamp_i32(self.loc.y + self.size.h)
    }

    /// First column right of the rectangle.
    pub fn right(self) -> (r: i32)
        ensures
            r == self.right_spec(),
    {
        saturating_sum(self.loc.x, self.size.w)
    }

    /// First row below the rectangle.
    pub fn bottom(self) -> (r: i32)
        ensures
            r == self.bottom_spec(),
    {
        saturating_sum(self.loc.y, self.size.h)
    }

    /// Whether the point lies in the rectangle.
    pub open spec fn contains_spec(self, p: Point) -> bool {
        self.loc.x <= p.x < self.right_spec() && self.loc.y <= p.y < self.bottom_spec()
    }

    /// Whether the point lies in the rectangle; the right and bottom edges do
    /// not belong to it.
    pub fn contains(self, p: Point) -> (r: bool)
        ensures
            r == self.contains_spec(p),
    {
        p.x >= self.loc.x && p.x < self.right() && p.y >= self.loc.y && p.y < self.bottom()
    }

    /// Whether two rectangles overlap.
    pub open spec fn overlaps_spec(self, other: Rectangle) -> bool {
        &&& self.loc.x < other.right_spec()
        &&& other.loc.x < self.right_spec()
        &&& self.loc.y < other.bottom_spec()
        &&& other.loc.y < self.bottom_spec()
    }

    /// Whether two rectangles overlap; rectangles that only touch do not.
    pub fn overlaps(self, other: Rectangle) -> (r: bool)
        ensures
            r == self.overlaps_spec(other),
    {
        self.loc.x < other.right() && other.loc.x < self.right() && self.loc.y < other.bottom()
            && other.loc.y < self.bottom()
    }
}

impl Rectangle {
    /// The common part of two rectangles; none where they do not overlap.
    pub open spec fn intersection_spec(self, other: Rectangle) -> Option<Rectangle> {
        if self.overlaps_spec(other) {
            let left = if self.loc.x > other.loc.x {
                self.loc.x as int
            } else {
                other.loc.x as int
            };
            let top = if self.loc.y > other.loc.y {
                self.loc.y as int
            } else {
                other.loc.y as int
            };
            let right = if self.right_spec() < other.right_spec() {
                self.right_spec()
            } else {
                other.right_spec()
            };
            let bottom = if self.bottom_spec() < other.bottom_spec() {
                self.bottom_spec()
            } else {
                other.bottom_spec()
            };
            Some(
                Rectangle {
                    loc: Point { x: left as i32, y: top as i32 },
                    size: Size {
                        w: clamp_i32(right - left) as i32,
                        h: clamp_i32(bottom - top) as i32,
                    },
                },
            )
        } else {
            None
        }
    }

    /// The common part of two rectangles; none where they do not overlap.
    pub fn intersection(self, other: Rectangle) -> (r: Option<Rectangle>)
        ensures
            r == self.intersection_spec(other),
    {
        if !self.overlaps(other) {
            return None;
        }
        let left: i32 = if self.loc.x > other.loc.x {
            self.loc.x
        } else {
            other.loc.x
        };
        let top: i32 = if self.loc.y > other.loc.y {
            self.loc.y
        } else {
            other.loc.y
        };
        let right: i32 = if self.right() < other.right() {
            self.right()
        } else {
            other.right()
        };
        let bottom: i32 = if self.bottom() < other.bottom() {
            self.bottom()
        } else {
            other.bottom()
        };
        Some(
            Rectangle {
                loc: Point { x: left, y: top },
                size: Size {
                    w: saturating_difference(right, left),
                    h: saturating_difference(bottom, top),
                },
            },
        )
    }
}

/// A point lies in the common part of two rectangles exactly where it lies in
/// both, as long as their edges are far from the limits of the coordinates.
pub proof fn lemma_intersection(a: Rectangle, b: Rectangle, p: Point)
    requires
        a.overlaps_spec(b),
        -0x2000_0000 <= a.loc.x <= 0x2000_0000 && -0x2000_0000 <= a.loc.y <= 0x2000_0000,
        -0x2000_0000 <= b.loc.x <= 0x2000_0000 && -0x2000_0000 <= b.loc.y <= 0x2000_0000,
        -0x2000_0000 <= a.size.w <= 0x2000_0000 && -0x2000_0000 <= a.size.h <= 0x2000_0000,
        -0x2000_0000 <= b.size.w <= 0x2000_0000 && -0x2000_0000 <= b.size.h <= 0x2000_0000,
    ensures
        a.intersection_spec(b)->0.contains_spec(p) <==> a.contains_spec(p) && b.contains_spec(p),
{
}

/// Overlapping is symmetric.
pub proof fn lemma_overlaps_symmetric(a: Rectangle, b: Rectangle)
    ensures
        a.overlaps_spec(b) == b.overlaps_spec(a),
{
}

/// Two rectangles with a point in common overlap.
pub proof fn lemma_common_point_overlaps(a: Rectangle, b: Rectangle, p: Point)
    requires
        a.contains_spec(p),
        b.contains_spec(p),
    ensures
        a.overlaps_spec(b),
{
}

/// How an output turns its picture.
#[derive(Clone, Copy, Debug, PartialEq, Eq, Structural)]
pub enum Transform {
    Normal,
    Rotated90,
    Rotated180,
    Rotated270,
    Flipped,
    Flipped90,
    Flipped180,
    Flipped270,
}

impl Transform {
    /// Whether width and height change places.
    pub open spec fn swaps(self) -> bool {
        self is Rotated90 || self is Rotated270 || self is Flipped90 || self is Flipped270
    }

    /// The size that a picture of this size has after the transform.
    pub open spec fn transform_size_spec(self, size: Size) -> Size {
        if self.swaps() {
            Size { w: size.h, h: size.w }
        } else {
            size
        }
    }

    /// The size that a picture of this size has after the transform.
    pub fn transform_size(self, size: Size) -> (r: Size)
        ensures
            r == self.transform_size_spec(size),
    {
        match self {
            Transform::Rotated90
            | Transform::Rotated270
            | Transform::Flipped90
            | Transform::Flipped270 => Size { w: size.h, h: size.w },
            _ => size,
        }
    }
}

} // verus!

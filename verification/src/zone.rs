//! Positions, sizes and zones: the geometric vocabulary of the crate.

use vstd::prelude::*;

verus! {

/// Point on a 2D surface, in signed coordinates.
#[derive(Debug, Copy, Clone, PartialEq, Eq, Structural)]
pub struct Point {
    /// Coordinate on the horizontal axis, growing rightwards.
    pub x: isize,
    /// Coordinate on the vertical axis, growing downwards.
    pub y: isize,
}

/// Size of a rectangle: a width and a height, never negative.
#[derive(Debug, Copy, Clone, PartialEq, Eq, Structural)]
pub struct Size {
    /// Extent on the horizontal axis.
    pub w: usize,
    /// Extent on the vertical axis.
    pub h: usize,
}

/// Sized and positioned rectangle.
#[derive(Debug, Copy, Clone, PartialEq, Eq, Structural)]
pub struct Zone {
    /// The top-left corner of the zone.
    pub position: Point,
    /// The size of the zone.
    pub size: Size,
}

/// Mathematical view of a zone: its corner and extents as integers.
#[verifier::ext_equal]
pub ghost struct ZoneView {
    /// Coordinate of the left edge.
    pub x: int,
    /// Coordinate of the top edge.
    pub y: int,
    /// Extent on the horizontal axis.
    pub w: int,
    /// Extent on the vertical axis.
    pub h: int,
}

impl View for Point {
    type V = (int, int);

    open spec fn view(&self) -> (int, int) {
        (self.x as int, self.y as int)
    }
}

impl View for Size {
    type V = (int, int);

    open spec fn view(&self) -> (int, int) {
        (self.w as int, self.h as int)
    }
}

impl View for Zone {
    type V = ZoneView;

    open spec fn view(&self) -> ZoneView {
        ZoneView {
            x: self.position.x as int,
            y: self.position.y as int,
            w: self.size.w as int,
            h: self.size.h as int,
        }
    }
}

/// The views of a sequence of sizes, in order.
pub open spec fn sizes_view(s: Seq<Size>) -> Seq<(int, int)> {
    Seq::new(s.len(), |i: int| s[i]@)
}

/// The views of a sequence of points, in order.
pub open spec fn points_view(s: Seq<Point>) -> Seq<(int, int)> {
    Seq::new(s.len(), |i: int| s[i]@)
}

/// Whether an integer fits the signed machine word of coordinates.
pub open spec fn in_isize(v: int) -> bool {
    isize::MIN <= v <= isize::MAX
}

impl Point {
    /// Creates a point from its two coordinates.
    pub fn new(x: isize, y: isize) -> (r: Self)
        ensures
            r == (Point { x, y }),
    {
        Point { x, y }
    }
}

impl Size {
    /// Creates a size from a width and a height.
    pub fn new(w: usize, h: usize) -> (r: Self)
        ensures
            r == (Size { w, h }),
    {
        Size { w, h }
    }
}

impl Zone {
    /// Creates a zone from its top-left corner and its size.
    pub fn new(position: Point, size: Size) -> (r: Self)
        ensures
            r == (Zone { position, size }),
    {
        Zone { position, size }
    }

    /// Returns the x position of the zone.
    pub fn x(self) -> (r: isize)
        ensures
            r == self.position.x,
    {
        self.position.x
    }

    /// Returns the y position of the zone.
    pub fn y(self) -> (r: isize)
        ensures
            r == self.position.y,
    {
        self.position.y
    }

    /// Returns the width of the zone.
    pub fn width(self) -> (r: usize)
        ensures
            r == self.size.w,
    {
        self.size.w
    }

    /// Returns the height of the zone.
    pub fn height(self) -> (r: usize)
        ensures
            r == self.size.h,
    {
        self.size.h
    }
}

} // verus!

//! Borders drawn along the sides of a widget's rectangle.

use vstd::prelude::*;
use crate::colours::RGBA;
use crate::side::Side;
use crate::zone::Point;
use crate::zone::Size;
use crate::zone::Zone;

verus! {

/// Border of a given width and colour along one side of a rectangle.
///
/// Borders are commonly used in arrays of four, one for each side of a
/// widget.
#[derive(Debug, Copy, Clone, PartialEq, Eq, Structural)]
pub struct Border {
    /// The width of the border.
    pub width: usize,
    /// The colour of the border.
    pub colour: RGBA,
    /// On which side of the rectangle the border lies.
    pub side: Side,
}

impl Border {
    /// Creates a new sized and coloured border for one side.
    pub fn new(width: usize, colour: RGBA, side: Side) -> (b: Self)
        ensures
            b == (Border { width, colour, side }),
    {
        Border { width, colour, side }
    }

    /// The zone the border covers along its side of a parent zone: a
    /// strip of the border's width and of the parent's full extent on
    /// the other axis.
    pub open spec fn spec_as_zone(self, parent: Zone) -> Zone {
        let x = if self.side == Side::Right {
            parent.position.x + parent.size.w
        } else {
            parent.position.x as int
        };
        let y = if self.side == Side::Bottom {
            parent.position.y + parent.size.h
        } else {
            parent.position.y as int
        };
        let (w, h) = if self.side == Side::Left || self.side == Side::Right {
            (self.width as int, parent.size.h as int)
        } else {
            (parent.size.w as int, self.width as int)
        };
        Zone {
            position: Point { x: x as isize, y: y as isize },
            size: Size { w: w as usize, h: h as usize },
        }
    }

    /// Creates the zone covered by the border inside a parent zone.
    pub fn as_zone(&self, parent_zone: &Zone) -> (z: Zone)
        requires
            parent_zone.size.w <= isize::MAX,
            parent_zone.size.h <= isize::MAX,
            parent_zone.position.x + parent_zone.size.w <= isize::MAX,
            parent_zone.position.y + parent_zone.size.h <= isize::MAX,
        ensures
            z == self.spec_as_zone(*parent_zone),
    {
        Zone {
            position: Point {
                x: match self.side {
                    Side::Right => parent_zone.x() + parent_zone.width() as isize,
                    _ => parent_zone.x(),
                },
                y: match self.side {
                    Side::Bottom => parent_zone.y() + parent_zone.height() as isize,
                    _ => parent_zone.y(),
                },
            },
            size: Size {
                w: match self.side {
                    Side::Left | Side::Right => self.width,
                    _ => parent_zone.width(),
                },
                h: match self.side {
                    Side::Left | Side::Right => parent_zone.height(),
                    _ => self.width,
                },
            },
        }
    }
}

} // verus!

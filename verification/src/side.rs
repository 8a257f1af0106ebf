//! Sides of a rectangle.

use vstd::prelude::*;

verus! {

/// One of the four sides of a rectangle.
#[derive(Debug, Copy, Clone, PartialEq, Eq, Structural)]
pub enum Side {
    /// The lower side.
    Bottom,
    /// The left side.
    Left,
    /// The right side.
    Right,
    /// The upper side.
    Top,
}

} // verus!

//! Direction in which a layout arranges its children.

use vstd::prelude::*;

verus! {

/// Direction rule for a layout.
///
/// The direction names the kind of strip each child forms: `Column`
/// children share the zone's width and each take its full height, `Row`
/// children share the zone's height and each take its full width.
#[derive(Debug, Copy, Clone, PartialEq, Eq, Structural)]
pub enum Direction {
    /// The children are rows stacked along the vertical axis.
    Row,
    /// The children are columns placed along the horizontal axis.
    Column,
}

} // verus!

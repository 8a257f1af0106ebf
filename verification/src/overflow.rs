//! Overflow policy of a layout.

use vstd::prelude::*;

verus! {

/// Rule about children drawn past their layout's bounds.
///
/// The policy is an opaque attribute for the host renderer: `Hide` asks
/// it to clip a child's paint to the parent's zone, `Ignore` to paint
/// unclipped.  The geometry pipeline itself never clips.
#[derive(Debug, Copy, Clone, PartialEq, Eq, Structural)]
pub enum Overflow {
    /// Does not hide the children drawn out of the layout's bounds.
    Ignore,
    /// Hides the children drawn out of the layout's bounds.
    Hide,
}

} // verus!

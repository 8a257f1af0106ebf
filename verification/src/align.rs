//! Alignment rules for widgets inside a layout.

use vstd::prelude::*;

verus! {

/// Alignment rule.
///
/// A layout's horizontal alignment must be one of `Left`, `Center` or
/// `Right`; its vertical alignment one of `Top`, `Center` or `Bottom`.
/// Any other value is a configuration error surfaced by the aligner.
#[derive(Debug, Copy, Clone, PartialEq, Eq, Structural)]
pub enum Align {
    /// Aligns the items in the center of their parent.
    Center,
    /// Aligns the items on the left of their parent.
    Left,
    /// Aligns the items on the right of their parent.
    Right,
    /// Aligns the items at the top of their parent.
    Top,
    /// Aligns the items at the bottom of their parent.
    Bottom,
}

impl Align {
    /// Whether this alignment is legal on the horizontal axis.
    pub open spec fn valid_x(self) -> bool {
        self == Align::Left || self == Align::Center || self == Align::Right
    }

    /// Whether this alignment is legal on the vertical axis.
    pub open spec fn valid_y(self) -> bool {
        self == Align::Top || self == Align::Center || self == Align::Bottom
    }
}

} // verus!

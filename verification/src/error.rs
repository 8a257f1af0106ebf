//! Configuration errors surfaced by the geometry pipeline.

use vstd::prelude::*;

verus! {

/// Fatal configuration error found while computing a layout.
///
/// A build that meets one aborts entirely: no partial result is handed
/// back, and the host caller decides whether to fall back to a previous
/// valid build or halt.
#[derive(Debug, Copy, Clone, PartialEq, Eq, Structural)]
pub enum LayoutError {
    /// A layout's horizontal alignment is not `Left`, `Center` or `Right`.
    InvalidAlignX,
    /// A layout's vertical alignment is not `Top`, `Center` or `Bottom`.
    InvalidAlignY,
}

impl LayoutError {
    /// A short description of the error, for the host to report.
    pub fn describe(&self) -> (r: &'static str)
        ensures
            self is InvalidAlignX ==> r@ == "widgets alignment on the x axis must be Left, Center or Right"@,
            self is InvalidAlignY ==> r@ == "widgets alignment on the y axis must be Top, Center or Bottom"@,
    {
        match self {
            LayoutError::InvalidAlignX => "widgets alignment on the x axis must be Left, Center or Right",
            LayoutError::InvalidAlignY => "widgets alignment on the y axis must be Top, Center or Bottom",
        }
    }
}

} // verus!

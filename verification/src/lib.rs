//! Widget-tree layout and rendering preparation.
//!
//! Given a declarative tree of widgets (layouts, containers, leaf
//! primitives and controller wrappers), the crate computes the size and
//! position of every element inside a bounded drawing zone and emits a
//! flat, ordered list of positioned drawables for a host renderer to
//! paint.  A second walk over the same tree rebinds each controller to
//! the zone it was drawn in, so that pointer events can be dispatched by
//! hit-testing.

pub mod align;
pub mod aligner;
pub mod border;
pub mod colours;
pub mod controllers;
pub mod direction;
pub mod draw;
pub mod error;
pub mod font;
pub mod laws;
pub mod overflow;
pub mod side;
pub mod sizer;
pub mod viewport;
pub mod widgets;
pub mod zone;

pub use align::Align;
pub use aligner::Aligner;
pub use border::Border;
pub use colours::RGBA;
pub use controllers::Controller;
pub use controllers::Detector;
pub use controllers::TapHandler;
pub use controllers::is_tapped;
pub use direction::Direction;
pub use draw::Builder;
pub use draw::Drawable;
pub use draw::DrawableAt;
pub use draw::Object;
pub use error::LayoutError;
pub use font::Font;
pub use font::FontFamily;
pub use font::FontWeight;
pub use overflow::Overflow;
pub use side::Side;
pub use sizer::Sizer;
pub use viewport::Viewport;
pub use widgets::Button;
pub use widgets::Container;
pub use widgets::Image;
pub use widgets::Label;
pub use widgets::Layout;
pub use widgets::Surface;
pub use widgets::Widget;
pub use zone::Point;
pub use zone::Size;
pub use zone::Zone;

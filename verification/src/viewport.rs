//! The viewport: a widget tree bound to the zone it is drawn in.

use vstd::prelude::*;
use crate::controllers::TapHandler;
use crate::controllers::browse_controllers;
use crate::controllers::children_only_differ;
use crate::controllers::spec_rebind_children;
use crate::controllers::update_controllers;
use crate::draw::Builder;
use crate::draw::Drawable;
use crate::draw::DrawableView;
use crate::draw::drawables_view;
use crate::draw::parts_fits;
use crate::draw::spec_build_layout;
use crate::error::LayoutError;
use crate::widgets::Layout;
use crate::widgets::LayoutView;
use crate::widgets::slot_count_children;
use crate::zone::Point;
use crate::zone::Size;
use crate::zone::Zone;

verus! {

/// Wraps a layout and the zone it is drawn in, such as a window or a
/// canvas, and builds drawables from the widgets inside.
#[derive(Debug)]
pub struct Viewport {
    /// The zone covered by the viewport.
    pub zone: Zone,
    /// The root layout of the viewport.
    pub layout: Layout,
}

impl Viewport {
    /// What one build of the viewport hands back: the drawables of the
    /// whole tree, group identifiers counted from zero, or the first
    /// configuration error the walk meets.
    pub open spec fn spec_build(self) -> Result<Seq<DrawableView>, LayoutError> {
        match spec_build_layout(self.layout@, self.zone@, 0, false) {
            Ok(p) => Ok(p.0),
            Err(e) => Err(e),
        }
    }

    /// Machine bounds one build of the viewport needs.
    pub open spec fn build_fits(self) -> bool {
        &&& parts_fits(
            self.layout@.direction,
            self.layout@.wx_align,
            self.layout@.wy_align,
            self.layout@.widgets,
            self.zone@,
        )
        &&& slot_count_children(self.layout@.widgets, 0) <= i32::MAX
    }

    /// Creates a new viewport drawing `layout` inside `zone`.
    pub fn new(zone: Zone, layout: Layout) -> (v: Self)
        ensures
            v.zone == zone,
            v.layout == layout,
    {
        Viewport { zone, layout }
    }

    /// Creates the drawables for the widgets in the viewport's layout.
    ///
    /// The drawables come in a stable depth-first order: at every level
    /// the layout's own surface first, then each child slot in stored
    /// order, with nested contents right after their owning slot.  On a
    /// configuration error no partial list is handed back.
    pub fn build(&self) -> (r: Result<Vec<Drawable>, LayoutError>)
        requires
            self.build_fits(),
        ensures
            match r {
                Ok(ds) => self.spec_build() matches Ok(m) && drawables_view(ds@) == m,
                Err(e) => self.spec_build() == Err::<Seq<DrawableView>, LayoutError>(e),
            },
    {
        let mut builder = Builder::new(self.zone);
        match builder.build_view(self) {
            Ok(()) => {
                proof {
                    let p = spec_build_layout(self.layout@, self.zone@, 0, false)->Ok_0;
                    assert(drawables_view(builder.drawables@) =~= p.0);
                }
                Ok(builder.drawables)
            },
            Err(e) => Err(e),
        }
    }

    /// Moves the viewport to a new zone and builds again.
    ///
    /// Zones are not cached across rebuilds: every build computes them
    /// afresh, so a resize only needs this one call.
    pub fn rebuild(&mut self, position: Point, size: Size) -> (r: Result<Vec<Drawable>, LayoutError>)
        requires
            (Viewport {
                zone: Zone { position, size },
                layout: old(self).layout,
            }).build_fits(),
        ensures
            final(self).zone == (Zone { position, size }),
            final(self).layout == old(self).layout,
            match r {
                Ok(ds) => final(self).spec_build() matches Ok(m) && drawables_view(ds@) == m,
                Err(e) => final(self).spec_build() == Err::<Seq<DrawableView>, LayoutError>(e),
            },
    {
        self.zone = Zone { position, size };
        self.build()
    }

    /// Rebinds every controller in the viewport's layout to the zones
    /// of the supplied drawables, without invoking any callback.
    ///
    /// A controller's stored zone becomes the zone of the first
    /// drawable whose group is the controller's slot in build order; a
    /// controller with no matching drawable keeps its stale zone.
    pub fn update_controllers(&mut self, drawables: &Vec<Drawable>)
        requires
            1 + slot_count_children(old(self).layout@.widgets, 0) <= usize::MAX,
        ensures
            final(self).zone == old(self).zone,
            final(self).layout@ == (LayoutView {
                widgets: spec_rebind_children(old(self).layout@.widgets, drawables@, 1, 0),
                ..old(self).layout@
            }),
    {
        update_controllers(&mut self.layout, drawables)
    }

    /// Browses all the widgets in build order, rebinding every
    /// controller's zone from the drawables and calling the handler
    /// once per controller found.
    ///
    /// The handler may mutate the controller it is handed; the rest of
    /// the tree is left exactly as the rebinding pass put it.
    pub fn controllers<H: TapHandler>(&mut self, drawables: &Vec<Drawable>, handler: &mut H)
        requires
            1 + slot_count_children(old(self).layout@.widgets, 0) <= usize::MAX,
        ensures
            final(self).zone == old(self).zone,
            final(self).layout@.colour == old(self).layout@.colour,
            final(self).layout@.borders == old(self).layout@.borders,
            final(self).layout@.overflow == old(self).layout@.overflow,
            final(self).layout@.wx_align == old(self).layout@.wx_align,
            final(self).layout@.wy_align == old(self).layout@.wy_align,
            final(self).layout@.direction == old(self).layout@.direction,
            children_only_differ(
                spec_rebind_children(old(self).layout@.widgets, drawables@, 1, 0),
                0,
                final(self).layout@.widgets,
            ),
    {
        browse_controllers(&mut self.layout, drawables, handler)
    }
}

} // verus!

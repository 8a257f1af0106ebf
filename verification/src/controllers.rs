//! Controllers: widget wrappers that detect events on the widget they
//! wrap, and the browser matching them back to their built zones.

use vstd::prelude::*;
use crate::draw::Drawable;
use crate::draw::DrawableAt;
use crate::draw::drawables_view;
use crate::draw::find_group;
use crate::widgets::DetectorView;
use crate::widgets::Layout;
use crate::widgets::LayoutView;
use crate::widgets::Widget;
use crate::widgets::WidgetView;
use crate::widgets::clone_widget;
use crate::widgets::lemma_widgets_view;
use crate::widgets::rank;
use crate::widgets::rank_children;
use crate::widgets::slot_count;
use crate::widgets::slot_count_children;
use crate::widgets::widgets_view;
use crate::zone::Point;
use crate::zone::Size;
use crate::zone::Zone;

verus! {

/// Whether a tap lies over a zone: inside means within the zone's
/// bounds, both ends included.
pub open spec fn spec_is_tapped(tap: Point, zone: Zone) -> bool {
    &&& zone.position.x <= tap.x <= zone.position.x + zone.size.w
    &&& zone.position.y <= tap.y <= zone.position.y + zone.size.h
}

/// Whether a tap is over the tappable zone.
///
/// A point exactly on the zone's boundary counts as inside; one unit
/// past any boundary counts as outside.  Meant to be called after the
/// widget was drawn, on the zone the browser bound to its controller.
pub fn is_tapped(tap: Point, zone: Zone) -> (r: bool)
    requires
        zone.position.x + zone.size.w <= isize::MAX,
        zone.position.y + zone.size.h <= isize::MAX,
        zone.size.w <= isize::MAX,
        zone.size.h <= isize::MAX,
    ensures
        r == spec_is_tapped(tap, zone),
{
    tap.x >= zone.x() && tap.x <= zone.x() + zone.width() as isize && tap.y >= zone.y()
        && tap.y <= zone.y() + zone.height() as isize
}

/// Controller detecting taps on the widget it wraps.
///
/// The stored zone is the only long-lived geometric state of the tree:
/// the browser overwrites it with the zone of the drawable the wrapped
/// widget was last built into, and it is stale input until then.
#[derive(Debug)]
pub struct Detector {
    /// The wrapped widget.
    pub widget: Box<Widget>,
    /// The zone covered by the tap detection.
    pub zone: Zone,
}

impl Detector {
    /// Creates a new tap detector around `widget`, with an empty zone
    /// until a browse pass binds the built one.
    pub fn new(widget: Widget) -> (d: Self)
        ensures
            *d.widget == widget,
            d.zone == (Zone { position: Point { x: 0, y: 0 }, size: Size { w: 0, h: 0 } }),
    {
        Detector {
            widget: Box::new(widget),
            zone: Zone { position: Point { x: 0, y: 0 }, size: Size { w: 0, h: 0 } },
        }
    }
}

impl Clone for Detector {
    /// Cloning a detector clones the wrapped tree and keeps the zone.
    fn clone(&self) -> (r: Self)
        ensures
            r@ == self@,
    {
        Detector { widget: Box::new(crate::widgets::clone_widget(&*self.widget)), zone: self.zone }
    }
}

/// Controllers wrap widgets in order to control what happens to them.
pub trait Controller {
    /// The zone currently bound to the controller.
    spec fn spec_zone(&self) -> Zone;

    /// Returns the controlled zone: the position and size of the
    /// drawable corresponding to the controlled widget.
    fn zone(&self) -> (z: &Zone)
        ensures
            *z == self.spec_zone(),
    ;

    /// Updates the controlled zone.
    fn update(&mut self, zone: Zone)
        ensures
            final(self).spec_zone() == zone,
    ;
}

impl Controller for Detector {
    open spec fn spec_zone(&self) -> Zone {
        self.zone
    }

    fn zone(&self) -> (z: &Zone) {
        &self.zone
    }

    fn update(&mut self, zone: Zone) {
        self.zone = zone;
    }
}

/// Callback capability handed to the controller browser: its single
/// method is invoked once for every controller the browser finds, in
/// traversal order, with the controller's zone freshly rebound.
pub trait TapHandler {
    /// Called on every controller found, free to mutate it.
    fn on_controller(&mut self, controller: &mut Detector);
}


/// The zone bound to cursor `g` by a drawable list: the zone of the
/// first drawable of group `g`, or `stale` when no drawable has that
/// group.
pub open spec fn spec_zone_at(ds: Seq<Drawable>, g: int, stale: Zone) -> Zone {
    let j = find_group(drawables_view(ds), g, 0);
    if j < ds.len() {
        ds[j].zone
    } else {
        stale
    }
}

/// One widget of the tree after a browse pass rebound its controllers
/// to the drawables: a controller's zone becomes the zone of the
/// drawable at the browse cursor `i`, a layout's children are rebound
/// below it, everything else is untouched.
pub open spec fn spec_rebind_widget(w: WidgetView, ds: Seq<Drawable>, i: int) -> WidgetView
    decreases rank(w), 1int,
{
    match w {
        WidgetView::Layout(l) => WidgetView::Layout(
            LayoutView { widgets: spec_rebind_children(l.widgets, ds, i + 1, 0), ..l },
        ),
        WidgetView::Controller(d) => WidgetView::Controller(
            DetectorView { widget: d.widget, zone: spec_zone_at(ds, i, d.zone) },
        ),
        _ => w,
    }
}

/// The children from `idx` on after a browse pass, with the cursor
/// standing at `i` for slot `idx`: the cursor advances once per slot,
/// plus once per slot below a layout child, exactly as the builder
/// advanced the group identifier.
pub open spec fn spec_rebind_children(
    s: Seq<WidgetView>,
    ds: Seq<Drawable>,
    i: int,
    idx: int,
) -> Seq<WidgetView>
    decreases rank_children(s, idx), 2int,
{
    if idx < 0 || idx >= s.len() {
        Seq::empty()
    } else {
        seq![spec_rebind_widget(s[idx], ds, i)] + spec_rebind_children(
            s,
            ds,
            i + 1 + slot_count(s[idx]),
            idx + 1,
        )
    }
}

/// Whether `b` differs from `a` only at controller nodes: the shape of
/// the tree and every non-controller node are the same, and controller
/// nodes stay controller nodes.
pub open spec fn controllers_only_differ(a: WidgetView, b: WidgetView) -> bool
    decreases rank(a), 1int,
{
    match a {
        WidgetView::Layout(l) => b matches WidgetView::Layout(l2) && l2.colour == l.colour
            && l2.borders == l.borders && l2.overflow == l.overflow && l2.wx_align == l.wx_align
            && l2.wy_align == l.wy_align && l2.direction == l.direction
            && children_only_differ(l.widgets, 0, l2.widgets),
        WidgetView::Controller(_) => b is Controller,
        _ => b == a,
    }
}

/// Whether the sequence `b` differs from `a[idx..]` only at controller
/// nodes.
pub open spec fn children_only_differ(a: Seq<WidgetView>, idx: int, b: Seq<WidgetView>) -> bool
    decreases rank_children(a, idx), 2int,
{
    if idx < 0 || idx >= a.len() {
        b.len() == 0
    } else {
        &&& b.len() == a.len() - idx
        &&& controllers_only_differ(a[idx], b[0])
        &&& children_only_differ(a, idx + 1, b.drop_first())
    }
}

/// Rebinds the controllers of one widget at browse cursor `i`, handing
/// back the rebound widget and the cursor for the next sibling.
fn rebind_widget_exec(w: &Widget, ds: &Vec<Drawable>, i: usize) -> (r: (Widget, usize))
    requires
        i + 1 + slot_count(w@) <= usize::MAX,
    ensures
        r.0@ == spec_rebind_widget(w@, ds@, i as int),
        r.1 == i + 1 + slot_count(w@),
    decreases rank(w@), 1int,
{
    match w {
        Widget::Layout(l) => {
            proof {
                assert(w@ == WidgetView::Layout(l@));
                assert(rank(w@) == 1 + rank_children(l@.widgets, 0));
                assert(slot_count(w@) == slot_count_children(l@.widgets, 0));
            }
            let (ws, ni) = rebind_children_exec(&l.widgets, ds, i + 1, 0);
            let rl = Layout {
                colour: l.colour,
                borders: l.borders,
                overflow: l.overflow,
                wx_align: l.wx_align,
                wy_align: l.wy_align,
                direction: l.direction,
                widgets: ws,
            };
            proof {
                assert(rl@ =~= (LayoutView {
                    widgets: spec_rebind_children(l@.widgets, ds@, i + 1, 0),
                    ..l@
                }));
            }
            (Widget::Layout(rl), ni)
        },
        Widget::Controller(d) => {
            let z: Zone = match ds.at(i) {
                Some(dr) => dr.zone,
                None => d.zone,
            };
            proof {
                assert(z == spec_zone_at(ds@, i as int, d.zone));
            }
            let r = Widget::Controller(Detector {
                widget: Box::new(clone_widget(&*d.widget)),
                zone: z,
            });
            (r, i + 1)
        },
        _ => {
            let r = clone_widget(w);
            (r, i + 1)
        },
    }
}

/// Rebinds the controllers of the children from `idx` on, the browse
/// cursor standing at `i` for slot `idx`.
fn rebind_children_exec(ws: &Vec<Widget>, ds: &Vec<Drawable>, i: usize, idx: usize) -> (r: (
    Vec<Widget>,
    usize,
))
    requires
        idx <= ws@.len(),
        i + slot_count_children(widgets_view(ws@), idx as int) <= usize::MAX,
    ensures
        widgets_view(r.0@) == spec_rebind_children(widgets_view(ws@), ds@, i as int, idx as int),
        r.1 == i + slot_count_children(widgets_view(ws@), idx as int),
    decreases rank_children(widgets_view(ws@), idx as int), 2int,
{
    let ghost gs = widgets_view(ws@);
    proof {
        lemma_widgets_view(ws@);
    }
    if idx >= ws.len() {
        let r: Vec<Widget> = Vec::new();
        proof {
            lemma_widgets_view(r@);
            assert(widgets_view(r@) =~= spec_rebind_children(gs, ds@, i as int, idx as int));
        }
        return (r, i);
    }
    proof {
        assert(rank_children(gs, idx as int) == 2 + rank(gs[idx as int]) + rank_children(
            gs,
            idx + 1,
        ));
        assert(slot_count_children(gs, idx as int) == 1 + slot_count(gs[idx as int])
            + slot_count_children(gs, idx + 1));
    }
    let (w2, i2) = rebind_widget_exec(&ws[idx], ds, i);
    let (mut rest, ni) = rebind_children_exec(ws, ds, i2, idx + 1);
    let ghost restv = widgets_view(rest@);
    let ghost old_rest = rest@;
    proof {
        lemma_widgets_view(old_rest);
    }
    rest.insert(0, w2);
    proof {
        assert(rest@ =~= seq![w2] + old_rest);
        lemma_widgets_view(rest@);
        assert(widgets_view(rest@) =~= seq![w2@] + restv);
        assert(widgets_view(rest@) =~= spec_rebind_children(gs, ds@, i as int, idx as int));
    }
    (rest, ni)
}

/// Visits one widget, invoking the handler on every controller in it,
/// in traversal order.
fn visit_widget<H: TapHandler>(w: &Widget, handler: &mut H) -> (r: Widget)
    ensures
        controllers_only_differ(w@, r@),
    decreases rank(w@), 1int,
{
    match w {
        Widget::Layout(l) => {
            proof {
                assert(w@ == WidgetView::Layout(l@));
                assert(rank(w@) == 1 + rank_children(l@.widgets, 0));
            }
            let ws = visit_children(&l.widgets, handler, 0);
            let rl = Layout {
                colour: l.colour,
                borders: l.borders,
                overflow: l.overflow,
                wx_align: l.wx_align,
                wy_align: l.wy_align,
                direction: l.direction,
                widgets: ws,
            };
            proof {
                assert(rl@.widgets == widgets_view(ws@));
                assert(children_only_differ(l@.widgets, 0, rl@.widgets));
            }
            Widget::Layout(rl)
        },
        Widget::Controller(d) => {
            let mut det = Detector { widget: Box::new(clone_widget(&*d.widget)), zone: d.zone };
            handler.on_controller(&mut det);
            Widget::Controller(det)
        },
        _ => clone_widget(w),
    }
}

/// Visits the children from `idx` on, invoking the handler on every
/// controller below them, in traversal order.
fn visit_children<H: TapHandler>(ws: &Vec<Widget>, handler: &mut H, idx: usize) -> (r: Vec<Widget>)
    requires
        idx <= ws@.len(),
    ensures
        children_only_differ(widgets_view(ws@), idx as int, widgets_view(r@)),
    decreases rank_children(widgets_view(ws@), idx as int), 2int,
{
    let ghost gs = widgets_view(ws@);
    proof {
        lemma_widgets_view(ws@);
    }
    if idx >= ws.len() {
        let r: Vec<Widget> = Vec::new();
        proof {
            lemma_widgets_view(r@);
        }
        return r;
    }
    proof {
        assert(rank_children(gs, idx as int) == 2 + rank(gs[idx as int]) + rank_children(
            gs,
            idx + 1,
        ));
    }
    let w2 = visit_widget(&ws[idx], handler);
    let mut rest = visit_children(ws, handler, idx + 1);
    let ghost restv = widgets_view(rest@);
    let ghost old_rest = rest@;
    proof {
        lemma_widgets_view(old_rest);
    }
    rest.insert(0, w2);
    proof {
        assert(rest@ =~= seq![w2] + old_rest);
        lemma_widgets_view(rest@);
        assert(widgets_view(rest@) =~= seq![w2@] + restv);
        assert(widgets_view(rest@).drop_first() =~= restv);
    }
    rest
}

/// Rebinds every controller of a layout to the drawables of the last
/// build: each controller's stored zone becomes the zone of the first
/// drawable whose group is the controller's browse cursor, or stays
/// unchanged when no drawable has that group.  The browse starts with
/// the cursor at one, right past the root layout's own group.
pub fn update_controllers(layout: &mut Layout, drawables: &Vec<Drawable>)
    requires
        1 + slot_count_children(old(layout)@.widgets, 0) <= usize::MAX,
    ensures
        final(layout)@ == (LayoutView {
            widgets: spec_rebind_children(old(layout)@.widgets, drawables@, 1, 0),
            ..old(layout)@
        }),
{
    let (ws, _) = rebind_children_exec(&layout.widgets, drawables, 1, 0);
    layout.widgets = ws;
}

/// Browses the layout in build order, rebinding every controller's
/// zone as [`update_controllers`] does and then invoking the handler
/// once per controller found, in traversal order.  The handler may
/// mutate the controller it is handed; nothing else of the tree is
/// touched.
pub fn browse_controllers<H: TapHandler>(
    layout: &mut Layout,
    drawables: &Vec<Drawable>,
    handler: &mut H,
)
    requires
        1 + slot_count_children(old(layout)@.widgets, 0) <= usize::MAX,
    ensures
        final(layout)@.colour == old(layout)@.colour,
        final(layout)@.borders == old(layout)@.borders,
        final(layout)@.overflow == old(layout)@.overflow,
        final(layout)@.wx_align == old(layout)@.wx_align,
        final(layout)@.wy_align == old(layout)@.wy_align,
        final(layout)@.direction == old(layout)@.direction,
        children_only_differ(
            spec_rebind_children(old(layout)@.widgets, drawables@, 1, 0),
            0,
            final(layout)@.widgets,
        ),
{
    update_controllers(layout, drawables);
    let ws = visit_children(&layout.widgets, handler, 0);
    layout.widgets = ws;
}

} // verus!

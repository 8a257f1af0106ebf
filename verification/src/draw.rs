//! Drawables and the builder that flattens a widget tree into them.
//!
//! The builder walks a layout depth first.  At every layout it emits
//! the layout's own surface, sizes and positions the children with the
//! sizer and the aligner, and then visits each child in stored order:
//! a nested layout recurses, any other widget is built step by step
//! until a leaf primitive or a substitute layout appears.
//!
//! Every drawable carries a *group identifier* naming the tree slot it
//! came from.  The identifier advances once per child slot; everything
//! a build expansion emits shares the identifier of the slot that
//! expanded, however deep the expansion goes.  The controller browser
//! relies on exactly this bookkeeping to match drawables back to tree
//! nodes.

use vstd::prelude::*;
use crate::align::Align;
use crate::aligner::Aligner;
use crate::aligner::positions_fit;
use crate::aligner::spec_positions;
use crate::border::Border;
use crate::colours::RGBA;
use crate::direction::Direction;
use crate::error::LayoutError;
use crate::sizer::Sizer;
use crate::sizer::sizer_fits;
use crate::sizer::spec_sizes;
use crate::widgets::Image;
use crate::widgets::Label;
use crate::widgets::LabelView;
use crate::widgets::Layout;
use crate::widgets::LayoutView;
use crate::widgets::Surface;
use crate::widgets::SurfaceView;
use crate::widgets::Widget;
use crate::widgets::WidgetView;
use crate::widgets::built_from;
use crate::widgets::lemma_built_kind;
use crate::widgets::lemma_built_rank;
use crate::widgets::lemma_widgets_view;
use crate::widgets::rank;
use crate::widgets::rank_children;
use crate::widgets::slot_count;
use crate::widgets::slot_count_children;
use crate::widgets::widget_view;
use crate::zone::Point;
use crate::zone::Size;
use crate::zone::Zone;
use crate::zone::ZoneView;
use crate::zone::points_view;
use crate::zone::sizes_view;

verus! {

/// The object a drawable paints.
#[derive(Debug)]
pub enum Object {
    /// Wraps an image in order to draw it.
    Image(Image),
    /// Wraps a label in order to draw it.
    Label(Label),
    /// Wraps a surface in order to draw it.
    Surface(Surface),
    /// Wraps any other widget for the host to interpret.
    Unknown(Box<Widget>),
}

/// Mathematical view of a drawable's object.
pub ghost enum ObjectView {
    /// View of a wrapped image.
    Image(Image),
    /// View of a wrapped label.
    Label(LabelView),
    /// View of a wrapped surface.
    Surface(SurfaceView),
    /// View of any other wrapped widget.
    Unknown(Box<WidgetView>),
}

impl View for Object {
    type V = ObjectView;

    open spec fn view(&self) -> ObjectView {
        match *self {
            Object::Image(i) => ObjectView::Image(i),
            Object::Label(l) => ObjectView::Label(l@),
            Object::Surface(s) => ObjectView::Surface(
                SurfaceView { colour: s.colour, borders: crate::widgets::borders_view(s.borders) },
            ),
            Object::Unknown(w) => ObjectView::Unknown(Box::new(widget_view(*w))),
        }
    }
}

/// Something that can be drawn, with the position and size calculated
/// for it at build time.
#[derive(Debug)]
pub struct Drawable {
    /// The object to be drawn.
    pub object: Object,
    /// Identifier of the tree slot this drawable belongs to.  All the
    /// drawables created by the same built widget share one group.
    pub group_id: i32,
    /// The zone covered by the drawable.
    pub zone: Zone,
}

/// Mathematical view of a drawable.
#[verifier::ext_equal]
pub ghost struct DrawableView {
    /// The view of the drawn object.
    pub object: ObjectView,
    /// The group identifier, as an integer.
    pub group: int,
    /// The view of the covered zone.
    pub zone: ZoneView,
}

impl View for Drawable {
    type V = DrawableView;

    open spec fn view(&self) -> DrawableView {
        DrawableView { object: self.object@, group: self.group_id as int, zone: self.zone@ }
    }
}

/// The views of a sequence of drawables, in order.
pub open spec fn drawables_view(s: Seq<Drawable>) -> Seq<DrawableView> {
    Seq::new(s.len(), |i: int| s[i]@)
}

impl Drawable {
    /// Creates a new drawable for an object covering `zone`, tagged
    /// with the slot identifier `group_id`.
    pub fn new(object: Object, zone: Zone, group_id: i32) -> (d: Self)
        ensures
            d.object == object,
            d.zone == zone,
            d.group_id == group_id,
    {
        Drawable { object, group_id, zone }
    }
}

/// Index of the first drawable at or after `from` whose group is `g`,
/// or the length when there is none.
pub open spec fn find_group(ds: Seq<DrawableView>, g: int, from: int) -> int
    decreases ds.len() - from,
{
    if from < 0 || from >= ds.len() {
        ds.len() as int
    } else if ds[from].group == g {
        from
    } else {
        find_group(ds, g, from + 1)
    }
}

/// Lookup of drawables by their group identifier.
pub trait DrawableAt {
    /// The views of the drawables held, in order.
    spec fn spec_drawables(&self) -> Seq<DrawableView>;

    /// Returns the first drawable of group `i`, if any.
    fn at(&self, i: usize) -> (r: Option<&Drawable>)
        ensures
            match r {
                Some(d) => {
                    let ds = self.spec_drawables();
                    let j = find_group(ds, i as int, 0);
                    &&& 0 <= j < ds.len()
                    &&& d@ == ds[j]
                },
                None => find_group(self.spec_drawables(), i as int, 0)
                    == self.spec_drawables().len(),
            },
    ;
}

impl DrawableAt for Vec<Drawable> {
    open spec fn spec_drawables(&self) -> Seq<DrawableView> {
        drawables_view(self@)
    }

    fn at(&self, i: usize) -> (r: Option<&Drawable>) {
        let ghost ds = drawables_view(self@);
        let n = self.len();
        for k in 0..n
            invariant
                n == self@.len(),
                ds == drawables_view(self@),
                find_group(ds, i as int, 0) == find_group(ds, i as int, k as int),
        {
            if self[k].group_id >= 0 && self[k].group_id as usize == i {
                let d = &self[k];
                proof {
                    assert(ds[k as int].group == i as int);
                    assert(find_group(ds, i as int, k as int) == k as int);
                    assert(d@ == ds[k as int]);
                }
                return Some(d);
            }
            proof {
                let g = self@[k as int].group_id;
                if g >= 0 {
                    assert(g as usize != i);
                    assert(ds[k as int].group != i as int);
                } else {
                    assert(ds[k as int].group < 0);
                }
                assert(find_group(ds, i as int, k as int) == find_group(ds, i as int, k + 1));
            }
        }
        None
    }
}

/// How a built widget is classified into a drawable object: the leaf
/// primitives map to their own kind, anything else stays opaque.
pub open spec fn classify(w: WidgetView) -> ObjectView {
    match w {
        WidgetView::Image(i) => ObjectView::Image(i),
        WidgetView::Label(l) => ObjectView::Label(l),
        WidgetView::Surface(s) => ObjectView::Surface(s),
        _ => ObjectView::Unknown(Box::new(w)),
    }
}

/// The zone of child `i`, read off the sizer's and the aligner's
/// output sequences (whose first entries are the layout's own).
pub open spec fn child_zone_of(sizes: Seq<(int, int)>, ps: Seq<(int, int)>, i: int) -> ZoneView {
    ZoneView { x: ps[i + 1].0, y: ps[i + 1].1, w: sizes[i + 1].0, h: sizes[i + 1].1 }
}

/// What the builder emits for a layout with the given rules, children
/// and own surface, inside `zone`, starting from group `id`: the
/// layout's own drawable first, then everything its children emit, in
/// stored order.  Hands back the drawables and the group identifier
/// reached.  `fb` says this layout came from a build expansion, whose
/// drawables all share the expanded slot's group.
pub open spec fn spec_build_parts(
    dir: Direction,
    wx: Align,
    wy: Align,
    colour: RGBA,
    borders: Option<Seq<Border>>,
    children: Seq<WidgetView>,
    zone: ZoneView,
    id: int,
    fb: bool,
) -> Result<(Seq<DrawableView>, int), LayoutError>
    decreases rank_children(children, 0), 1int,
{
    let own = DrawableView {
        object: ObjectView::Surface(SurfaceView { colour, borders }),
        group: id,
        zone,
    };
    let sizes = spec_sizes(dir, children, zone.w, zone.h);
    match spec_positions(dir, wx, wy, zone.x, zone.y, sizes) {
        Err(e) => Err(e),
        Ok(ps) => match spec_build_children(children, sizes, ps, 0, id, fb) {
            Err(e) => Err(e),
            Ok((ds, idn)) => Ok((seq![own] + ds, idn)),
        },
    }
}

/// What the builder emits for a whole layout node.
pub open spec fn spec_build_layout(l: LayoutView, zone: ZoneView, id: int, fb: bool) -> Result<
    (Seq<DrawableView>, int),
    LayoutError,
>
    decreases rank_children(l.widgets, 0), 2int,
{
    spec_build_parts(l.direction, l.wx_align, l.wy_align, l.colour, l.borders, l.widgets, zone, id, fb)
}

/// What the builder emits for the children `children[idx..]`, each in
/// the zone the sizer and aligner computed for it.  Outside a build
/// expansion the group identifier advances once per child slot; inside
/// one (`fb`) every drawable keeps the expanded slot's group.
pub open spec fn spec_build_children(
    children: Seq<WidgetView>,
    sizes: Seq<(int, int)>,
    ps: Seq<(int, int)>,
    idx: int,
    id: int,
    fb: bool,
) -> Result<(Seq<DrawableView>, int), LayoutError>
    decreases rank_children(children, idx), 0int,
    via spec_build_children_decreases
{
    if idx < 0 || idx >= children.len() {
        Ok((Seq::empty(), id))
    } else {
        let id2 = if fb {
            id
        } else {
            id + 1
        };
        let zone = child_zone_of(sizes, ps, idx);
        let head = match children[idx] {
            WidgetView::Layout(sub) => spec_build_layout(sub, zone, id2, fb),
            w => spec_build_widget(w, zone, id2),
        };
        match head {
            Err(e) => Err(e),
            Ok((hd, idh)) => match spec_build_children(children, sizes, ps, idx + 1, idh, fb) {
                Err(e) => Err(e),
                Ok((tl, idt)) => Ok((hd + tl, idt)),
            },
        }
    }
}

#[via_fn]
proof fn spec_build_children_decreases(
    children: Seq<WidgetView>,
    sizes: Seq<(int, int)>,
    ps: Seq<(int, int)>,
    idx: int,
    id: int,
    fb: bool,
) {
    if 0 <= idx < children.len() {
        assert(rank_children(children, idx) == 2 + rank(children[idx]) + rank_children(
            children,
            idx + 1,
        ));
        if children[idx] is Layout {
            let sub = children[idx]->Layout_0;
            assert(rank(children[idx]) == 1 + rank_children(sub.widgets, 0));
        }
    }
}

/// What the builder emits for one non-layout child slot: the widget is
/// built one step; a substitute layout recurses as a build expansion,
/// anything else becomes one classified drawable at the slot's zone.
pub open spec fn spec_build_widget(w: WidgetView, zone: ZoneView, id: int) -> Result<
    (Seq<DrawableView>, int),
    LayoutError,
>
    decreases rank(w), 2int,
    via spec_build_widget_decreases
{
    match w {
        WidgetView::Layout(l) => Ok(
            (
                seq![
                    DrawableView {
                        object: ObjectView::Surface(
                            SurfaceView { colour: l.colour, borders: l.borders },
                        ),
                        group: id,
                        zone,
                    },
                ],
                id,
            ),
        ),
        WidgetView::Container(c) => spec_build_parts(
            Direction::Column,
            Align::Left,
            Align::Top,
            RGBA::transparent(),
            None,
            seq![*c.widget],
            zone,
            id,
            true,
        ),
        WidgetView::Button(b) => spec_build_parts(
            Direction::Column,
            Align::Center,
            Align::Center,
            b.colour,
            None,
            seq![WidgetView::Label(b.label)],
            zone,
            id,
            true,
        ),
        WidgetView::Controller(d) => spec_build_widget(*d.widget, zone, id),
        _ => Ok((seq![DrawableView { object: classify(w), group: id, zone }], id)),
    }
}

/// Machine bounds the builder needs, at every level of one build: the
/// sizer's sums and the aligner's coordinates stay within the machine
/// words, for this layout and for everything below it.
pub open spec fn parts_fits(
    dir: Direction,
    wx: Align,
    wy: Align,
    children: Seq<WidgetView>,
    zone: ZoneView,
) -> bool
    decreases rank_children(children, 0), 3int, 0int,
{
    &&& sizer_fits(children)
    &&& positions_fit(dir, wx, wy, zone.x, zone.y, spec_sizes(dir, children, zone.w, zone.h))
    &&& slots_fit(dir, wx, wy, children, zone, 0)
}

/// Machine bounds for every child slot from `idx` on.
pub open spec fn slots_fit(
    dir: Direction,
    wx: Align,
    wy: Align,
    children: Seq<WidgetView>,
    zone: ZoneView,
    idx: int,
) -> bool
    decreases rank_children(children, 0), 2int, children.len() - idx,
{
    idx >= children.len() || (slot_fits(dir, wx, wy, children, zone, idx) && slots_fit(
        dir,
        wx,
        wy,
        children,
        zone,
        idx + 1,
    ))
}

/// Machine bounds for the child in slot `i`: a nested layout carries
/// its own rules into its zone, any other child is built there.
pub open spec fn slot_fits(
    dir: Direction,
    wx: Align,
    wy: Align,
    children: Seq<WidgetView>,
    zone: ZoneView,
    i: int,
) -> bool
    decreases rank_children(children, 0), 1int, 0int,
    via slot_fits_decreases
{
    let sizes = spec_sizes(dir, children, zone.w, zone.h);
    match spec_positions(dir, wx, wy, zone.x, zone.y, sizes) {
        Err(_) => true,
        Ok(ps) => if 0 <= i < children.len() {
            match children[i] {
                WidgetView::Layout(sub) => parts_fits(
                    sub.direction,
                    sub.wx_align,
                    sub.wy_align,
                    sub.widgets,
                    child_zone_of(sizes, ps, i),
                ),
                w => widget_fits(w, child_zone_of(sizes, ps, i)),
            }
        } else {
            true
        },
    }
}

#[via_fn]
proof fn slot_fits_decreases(
    dir: Direction,
    wx: Align,
    wy: Align,
    children: Seq<WidgetView>,
    zone: ZoneView,
    i: int,
) {
    if 0 <= i < children.len() {
        crate::widgets::lemma_rank_children_elem(children, 0, i);
    }
}

/// Machine bounds for one non-layout widget built in `zone`.
pub open spec fn widget_fits(w: WidgetView, zone: ZoneView) -> bool
    decreases rank(w), 4int, 0int,
    via widget_fits_decreases
{
    match w {
        WidgetView::Container(c) => parts_fits(
            Direction::Column,
            Align::Left,
            Align::Top,
            seq![*c.widget],
            zone,
        ),
        WidgetView::Button(b) => parts_fits(
            Direction::Column,
            Align::Center,
            Align::Center,
            seq![WidgetView::Label(b.label)],
            zone,
        ),
        WidgetView::Controller(d) => widget_fits(*d.widget, zone),
        _ => true,
    }
}

/// Extracts from `parts_fits` the bound for one child slot.
pub proof fn lemma_parts_fits_slot(
    dir: Direction,
    wx: Align,
    wy: Align,
    children: Seq<WidgetView>,
    zone: ZoneView,
    i: int,
)
    requires
        parts_fits(dir, wx, wy, children, zone),
        0 <= i < children.len(),
    ensures
        slot_fits(dir, wx, wy, children, zone, i),
{
    lemma_slots_fit_elem(dir, wx, wy, children, zone, 0, i);
}

/// Extracts from `slots_fit` the bound for one slot at or after `idx`.
proof fn lemma_slots_fit_elem(
    dir: Direction,
    wx: Align,
    wy: Align,
    children: Seq<WidgetView>,
    zone: ZoneView,
    idx: int,
    i: int,
)
    requires
        slots_fit(dir, wx, wy, children, zone, idx),
        0 <= idx <= i < children.len(),
    ensures
        slot_fits(dir, wx, wy, children, zone, i),
    decreases i - idx,
{
    if idx < i {
        lemma_slots_fit_elem(dir, wx, wy, children, zone, idx + 1, i);
    }
}

#[via_fn]
proof fn widget_fits_decreases(w: WidgetView, zone: ZoneView) {
    match w {
        WidgetView::Container(c) => {
            assert(rank_children(seq![*c.widget], 1) == 0);
            assert(rank_children(seq![*c.widget], 0) == 2 + rank(*c.widget));
        },
        WidgetView::Button(b) => {
            assert(rank_children(seq![WidgetView::Label(b.label)], 1) == 0);
            assert(rank(WidgetView::Label(b.label)) == 0);
            assert(rank_children(seq![WidgetView::Label(b.label)], 0) == 2);
        },
        _ => {},
    }
}

#[via_fn]
proof fn spec_build_widget_decreases(w: WidgetView, zone: ZoneView, id: int) {
    match w {
        WidgetView::Container(c) => {
            assert(rank_children(seq![*c.widget], 1) == 0);
            assert(rank_children(seq![*c.widget], 0) == 2 + rank(*c.widget));
        },
        WidgetView::Button(b) => {
            assert(rank_children(seq![WidgetView::Label(b.label)], 1) == 0);
            assert(rank(WidgetView::Label(b.label)) == 0);
            assert(rank_children(seq![WidgetView::Label(b.label)], 0) == 2);
        },
        _ => {},
    }
}

/// A build step hands the builder exactly what the model prescribes:
/// whenever `r` can be built from `w`, building the slot of `w` emits
/// what recursing into `r` (for a substitute layout) or classifying `r`
/// (for a leaf) emits.
pub proof fn lemma_built_build(w: WidgetView, r: WidgetView, zone: ZoneView, id: int)
    requires
        built_from(w, r),
    ensures
        spec_build_widget(w, zone, id) == (match r {
            WidgetView::Layout(el) => spec_build_layout(el, zone, id, true),
            _ => Ok::<(Seq<DrawableView>, int), LayoutError>(
                (seq![DrawableView { object: classify(r), group: id, zone }], id),
            ),
        }),
    decreases w,
{
    match w {
        WidgetView::Container(c) => {
            let el = r->Layout_0;
            assert(el.widgets == seq![*c.widget]);
        },
        WidgetView::Button(b) => {
            let el = r->Layout_0;
            assert(el.widgets == seq![WidgetView::Label(b.label)]);
        },
        WidgetView::Controller(d) => {
            lemma_built_build(*d.widget, r, zone, id);
        },
        _ => {},
    }
}

/// The machine bounds of a slot carry over to the layout a build step
/// substitutes for its widget.
pub proof fn lemma_built_fits(w: WidgetView, r: WidgetView, zone: ZoneView)
    requires
        built_from(w, r),
        widget_fits(w, zone),
        r is Layout,
    ensures
        parts_fits(
            r->Layout_0.direction,
            r->Layout_0.wx_align,
            r->Layout_0.wy_align,
            r->Layout_0.widgets,
            zone,
        ),
    decreases w,
{
    match w {
        WidgetView::Controller(d) => {
            lemma_built_fits(*d.widget, r, zone);
        },
        _ => {},
    }
}

/// Where the group identifier stands after the builder walks a layout:
/// unchanged inside a build expansion, advanced by one per child slot
/// below the layout otherwise.
pub proof fn lemma_parts_next_id(
    dir: Direction,
    wx: Align,
    wy: Align,
    colour: RGBA,
    borders: Option<Seq<Border>>,
    children: Seq<WidgetView>,
    zone: ZoneView,
    id: int,
    fb: bool,
)
    ensures
        spec_build_parts(dir, wx, wy, colour, borders, children, zone, id, fb) matches Ok(p)
            ==> p.1 == id + if fb {
            0int
        } else {
            slot_count_children(children, 0) as int
        },
    decreases rank_children(children, 0), 1int,
{
    let sizes = spec_sizes(dir, children, zone.w, zone.h);
    match spec_positions(dir, wx, wy, zone.x, zone.y, sizes) {
        Ok(ps) => {
            lemma_children_next_id(children, sizes, ps, 0, id, fb);
        },
        Err(_) => {},
    }
}

/// Where the group identifier stands after the builder walks the child
/// slots from `idx` on.
pub proof fn lemma_children_next_id(
    children: Seq<WidgetView>,
    sizes: Seq<(int, int)>,
    ps: Seq<(int, int)>,
    idx: int,
    id: int,
    fb: bool,
)
    ensures
        spec_build_children(children, sizes, ps, idx, id, fb) matches Ok(p) ==> p.1 == id + if fb {
            0int
        } else {
            slot_count_children(children, idx) as int
        },
    decreases rank_children(children, idx), 0int,
{
    if 0 <= idx < children.len() {
        assert(rank_children(children, idx) == 2 + rank(children[idx]) + rank_children(
            children,
            idx + 1,
        ));
        let id2 = if fb {
            id
        } else {
            id + 1
        };
        let zone = child_zone_of(sizes, ps, idx);
        let head = match children[idx] {
            WidgetView::Layout(sub) => spec_build_layout(sub, zone, id2, fb),
            w => spec_build_widget(w, zone, id2),
        };
        match children[idx] {
            WidgetView::Layout(sub) => {
                assert(rank(children[idx]) == 1 + rank_children(sub.widgets, 0));
                lemma_parts_next_id(
                    sub.direction,
                    sub.wx_align,
                    sub.wy_align,
                    sub.colour,
                    sub.borders,
                    sub.widgets,
                    zone,
                    id2,
                    fb,
                );
            },
            w => {
                lemma_widget_next_id(w, zone, id2);
            },
        }
        if head is Ok {
            let idh = head->Ok_0.1;
            lemma_children_next_id(children, sizes, ps, idx + 1, idh, fb);
        }
        assert(slot_count_children(children, idx) == 1 + slot_count(children[idx])
            + slot_count_children(children, idx + 1));
        match children[idx] {
            WidgetView::Layout(sub) => {
                assert(slot_count(children[idx]) == slot_count_children(sub.widgets, 0));
            },
            _ => {
                assert(slot_count(children[idx]) == 0);
            },
        }
    }
}

/// A non-layout slot leaves the group identifier where it was: its
/// whole build expansion shares the slot's group.
pub proof fn lemma_widget_next_id(w: WidgetView, zone: ZoneView, id: int)
    ensures
        spec_build_widget(w, zone, id) matches Ok(p) ==> p.1 == id,
    decreases rank(w), 2int,
{
    match w {
        WidgetView::Container(c) => {
            assert(rank_children(seq![*c.widget], 1) == 0);
            assert(rank_children(seq![*c.widget], 0) == 2 + rank(*c.widget));
            lemma_parts_next_id(
                Direction::Column,
                Align::Left,
                Align::Top,
                RGBA::transparent(),
                None,
                seq![*c.widget],
                zone,
                id,
                true,
            );
        },
        WidgetView::Button(b) => {
            assert(rank_children(seq![WidgetView::Label(b.label)], 1) == 0);
            assert(rank(WidgetView::Label(b.label)) == 0);
            assert(rank_children(seq![WidgetView::Label(b.label)], 0) == 2);
            lemma_parts_next_id(
                Direction::Column,
                Align::Center,
                Align::Center,
                b.colour,
                None,
                seq![WidgetView::Label(b.label)],
                zone,
                id,
                true,
            );
        },
        WidgetView::Controller(d) => {
            lemma_widget_next_id(*d.widget, zone, id);
        },
        _ => {},
    }
}


/// Emits the drawables of one layout into `out`: the layout's own
/// surface first, then everything its children emit.  Hands back the
/// group identifier reached, or the configuration error that stopped
/// the build.
fn build_layout_into(layout: &Layout, zone: Zone, id: i32, fb: bool, out: &mut Vec<Drawable>) -> (r:
    Result<i32, LayoutError>)
    requires
        parts_fits(
            layout@.direction,
            layout@.wx_align,
            layout@.wy_align,
            layout@.widgets,
            zone@,
        ),
        id + (if fb {
            0int
        } else {
            slot_count_children(layout@.widgets, 0) as int
        }) <= i32::MAX,
    ensures
        match r {
            Ok(idn) => spec_build_layout(layout@, zone@, id as int, fb) matches Ok(p)
                && drawables_view(final(out)@) == drawables_view(old(out)@) + p.0 && idn as int
                == p.1,
            Err(e) => spec_build_layout(layout@, zone@, id as int, fb) == Err::<
                (Seq<DrawableView>, int),
                LayoutError,
            >(e),
        },
    decreases rank_children(layout@.widgets, 0), 2int,
{
    let ghost pre = drawables_view(out@);
    let own = Drawable {
        object: Object::Surface(Surface { colour: layout.colour, borders: layout.borders }),
        group_id: id,
        zone,
    };
    let ghost ownv = own@;
    out.push(own);
    proof {
        assert(drawables_view(out@) =~= pre + seq![ownv]);
    }
    let sizer = Sizer::new(layout);
    let sizes = sizer.size_in(zone.size);
    let aligner = Aligner::new(layout, sizes);
    let positions = match aligner.align_at(zone.position) {
        Ok(ps) => ps,
        Err(e) => {
            return Err(e);
        },
    };
    match build_children_into(layout, &aligner.sizes, &positions, Ghost(zone@), 0, id, fb, out) {
        Ok(idn) => {
            proof {
                let p = spec_build_children(
                    layout@.widgets,
                    sizes_view(aligner.sizes@),
                    points_view(positions@),
                    0,
                    id as int,
                    fb,
                )->Ok_0;
                assert(drawables_view(final(out)@) =~= pre + (seq![ownv] + p.0));
            }
            Ok(idn)
        },
        Err(e) => Err(e),
    }
}

/// Emits the drawables of the child slots of `layout` from `idx` on,
/// each inside the zone the sizer and the aligner computed for it.
#[verifier::rlimit(100)]
fn build_children_into(
    layout: &Layout,
    sizes: &Vec<Size>,
    ps: &Vec<Point>,
    zone: Ghost<ZoneView>,
    idx: usize,
    id: i32,
    fb: bool,
    out: &mut Vec<Drawable>,
) -> (r: Result<i32, LayoutError>)
    requires
        idx <= layout@.widgets.len(),
        sizes_view(sizes@) == spec_sizes(
            layout@.direction,
            layout@.widgets,
            zone@.w,
            zone@.h,
        ),
        spec_positions(
            layout@.direction,
            layout@.wx_align,
            layout@.wy_align,
            zone@.x,
            zone@.y,
            sizes_view(sizes@),
        ) == Ok::<Seq<(int, int)>, LayoutError>(points_view(ps@)),
        parts_fits(
            layout@.direction,
            layout@.wx_align,
            layout@.wy_align,
            layout@.widgets,
            zone@,
        ),
        id + (if fb {
            0int
        } else {
            slot_count_children(layout@.widgets, idx as int) as int
        }) <= i32::MAX,
    ensures
        match r {
            Ok(idn) => spec_build_children(
                layout@.widgets,
                sizes_view(sizes@),
                points_view(ps@),
                idx as int,
                id as int,
                fb,
            ) matches Ok(p) && drawables_view(final(out)@) == drawables_view(old(out)@) + p.0
                && idn as int == p.1,
            Err(e) => spec_build_children(
                layout@.widgets,
                sizes_view(sizes@),
                points_view(ps@),
                idx as int,
                id as int,
                fb,
            ) == Err::<(Seq<DrawableView>, int), LayoutError>(e),
        },
    decreases rank_children(layout@.widgets, idx as int), 1int,
{
    let ghost children = layout@.widgets;
    let ghost gsizes = sizes_view(sizes@);
    let ghost gps = points_view(ps@);
    let n = layout.widgets.len();
    proof {
        lemma_widgets_view(layout.widgets@);
    }
    if idx >= n {
        proof {
            assert(drawables_view(out@) =~= drawables_view(out@) + Seq::<DrawableView>::empty());
        }
        return Ok(id);
    }
    proof {
        assert(rank_children(children, idx as int) == 2 + rank(children[idx as int])
            + rank_children(children, idx + 1));
        assert(slot_count_children(children, idx as int) == 1 + slot_count(children[idx as int])
            + slot_count_children(children, idx + 1));
        assert(gsizes.len() == n + 1);
        assert(gps.len() == n + 1);
    }
    let id2 = if fb {
        id
    } else {
        id + 1
    };
    let czone = Zone { position: ps[idx + 1], size: sizes[idx + 1] };
    proof {
        assert(czone@ =~= child_zone_of(gsizes, gps, idx as int));
        let sm = spec_sizes(layout@.direction, layout@.widgets, zone@.w, zone@.h);
        let pm = spec_positions(
            layout@.direction,
            layout@.wx_align,
            layout@.wy_align,
            zone@.x,
            zone@.y,
            sm,
        )->Ok_0;
        lemma_parts_fits_slot(
            layout@.direction,
            layout@.wx_align,
            layout@.wy_align,
            layout@.widgets,
            zone@,
            idx as int,
        );
        assert(slot_fits(
            layout@.direction,
            layout@.wx_align,
            layout@.wy_align,
            layout@.widgets,
            zone@,
            idx as int,
        ));
        assert(sm == gsizes);
        assert(pm == gps);
        assert(child_zone_of(sm, pm, idx as int) == czone@);
    }
    let ghost pre = drawables_view(out@);
    let head = match &layout.widgets[idx] {
        Widget::Layout(sub) => {
            proof {
                assert(children[idx as int] == WidgetView::Layout(sub@));
                assert(rank(children[idx as int]) == 1 + rank_children(sub@.widgets, 0));
                assert(slot_count(children[idx as int]) == slot_count_children(sub@.widgets, 0));
            }
            build_layout_into(sub, czone, id2, fb, out)
        },
        w => {
            proof {
                assert(children[idx as int] == w@);
                assert(!(w@ is Layout));
            }
            build_widget_into(w, czone, id2, out)
        },
    };
    let idh = match head {
        Ok(idh) => idh,
        Err(e) => {
            return Err(e);
        },
    };
    proof {
        match children[idx as int] {
            WidgetView::Layout(sub) => {
                lemma_parts_next_id(
                    sub.direction,
                    sub.wx_align,
                    sub.wy_align,
                    sub.colour,
                    sub.borders,
                    sub.widgets,
                    czone@,
                    id2 as int,
                    fb,
                );
            },
            w => {
                lemma_widget_next_id(w, czone@, id2 as int);
            },
        }
    }
    let ghost mid = drawables_view(out@);
    match build_children_into(layout, sizes, ps, zone, idx + 1, idh, fb, out) {
        Ok(idn) => {
            proof {
                let hd = mid.subrange(pre.len() as int, mid.len() as int);
                let p = spec_build_children(children, gsizes, gps, idx + 1, idh as int, fb)->Ok_0;
                assert(mid == pre + hd);
                assert(drawables_view(final(out)@) =~= pre + (hd + p.0));
            }
            Ok(idn)
        },
        Err(e) => Err(e),
    }
}

/// Emits the drawables of one non-layout child slot: the widget is
/// built one step; a substitute layout recurses as a build expansion,
/// anything else becomes one classified drawable at the slot's zone.
fn build_widget_into(w: &Widget, zone: Zone, id: i32, out: &mut Vec<Drawable>) -> (r: Result<
    i32,
    LayoutError,
>)
    requires
        widget_fits(w@, zone@),
    ensures
        match r {
            Ok(idn) => spec_build_widget(w@, zone@, id as int) matches Ok(p) && drawables_view(
                final(out)@,
            ) == drawables_view(old(out)@) + p.0 && idn as int == p.1 && idn == id,
            Err(e) => spec_build_widget(w@, zone@, id as int) == Err::<
                (Seq<DrawableView>, int),
                LayoutError,
            >(e),
        },
    decreases rank(w@), 0int,
{
    let built = w.build();
    proof {
        lemma_built_build(w@, built@, zone@, id as int);
        lemma_built_kind(w@, built@);
    }
    let ghost pre = drawables_view(out@);
    match built {
        Widget::Layout(el) => {
            proof {
                lemma_built_rank(w@, WidgetView::Layout(el@));
                lemma_built_fits(w@, WidgetView::Layout(el@), zone@);
                lemma_widget_next_id(w@, zone@, id as int);
            }
            match build_layout_into(&el, zone, id, true, out) {
                Ok(_) => Ok(id),
                Err(e) => Err(e),
            }
        },
        Widget::Surface(s) => {
            let d = Drawable { object: Object::Surface(s), group_id: id, zone };
            let ghost dv = d@;
            out.push(d);
            proof {
                assert(drawables_view(out@) =~= pre + seq![dv]);
            }
            Ok(id)
        },
        Widget::Label(l) => {
            let d = Drawable { object: Object::Label(l), group_id: id, zone };
            let ghost dv = d@;
            out.push(d);
            proof {
                assert(drawables_view(out@) =~= pre + seq![dv]);
            }
            Ok(id)
        },
        Widget::Image(im) => {
            let d = Drawable { object: Object::Image(im), group_id: id, zone };
            let ghost dv = d@;
            out.push(d);
            proof {
                assert(drawables_view(out@) =~= pre + seq![dv]);
            }
            Ok(id)
        },
        Widget::Container(_) | Widget::Button(_) | Widget::Controller(_) => {
            proof {
                assert(false);
            }
            Ok(id)
        },
    }
}

/// Builds drawables for a widget tree inside a fixed zone.
///
/// The widgets of the layouts found below the root are built too, so
/// one call flattens the whole tree.  Several builds through one
/// builder accumulate drawables and keep advancing the same group
/// identifier.
#[derive(Debug)]
pub struct Builder {
    /// The drawables created so far, in drawing order.
    pub drawables: Vec<Drawable>,
    /// The zone the drawables are built in.
    pub zone: Zone,
    /// The group identifier reached: the slot identifier handed to the
    /// drawables of the next built widget.
    pub current_id: i32,
}

impl Builder {
    /// Creates a new drawable builder for a zone.
    pub fn new(zone: Zone) -> (b: Self)
        ensures
            b.zone == zone,
            b.drawables@ == Seq::<Drawable>::empty(),
            b.current_id == 0,
    {
        let b = Builder { drawables: Vec::new(), zone, current_id: 0 };
        proof {
            assert(b.drawables@ =~= Seq::<Drawable>::empty());
        }
        b
    }

    /// Builds the widgets contained in the viewport's layout, inside
    /// the builder's zone.
    ///
    /// On success the new drawables stand appended to `drawables`; on a
    /// configuration error the builder is left unchanged and no partial
    /// drawables are handed back.
    pub fn build_view(&mut self, view: &crate::viewport::Viewport) -> (r: Result<(), LayoutError>)
        requires
            parts_fits(
                view.layout@.direction,
                view.layout@.wx_align,
                view.layout@.wy_align,
                view.layout@.widgets,
                old(self).zone@,
            ),
            old(self).current_id + slot_count_children(view.layout@.widgets, 0) <= i32::MAX,
        ensures
            match r {
                Ok(()) => spec_build_layout(
                    view.layout@,
                    old(self).zone@,
                    old(self).current_id as int,
                    false,
                ) matches Ok(p) && drawables_view(final(self).drawables@) == drawables_view(
                    old(self).drawables@,
                ) + p.0 && final(self).current_id as int == p.1 && final(self).zone == old(
                    self,
                ).zone,
                Err(e) => spec_build_layout(
                    view.layout@,
                    old(self).zone@,
                    old(self).current_id as int,
                    false,
                ) == Err::<(Seq<DrawableView>, int), LayoutError>(e) && *final(self) == *old(self),
            },
    {
        let mut tmp: Vec<Drawable> = Vec::new();
        proof {
            assert(drawables_view(tmp@) =~= Seq::<DrawableView>::empty());
        }
        match build_layout_into(&view.layout, self.zone, self.current_id, false, &mut tmp) {
            Ok(idn) => {
                let ghost pre = drawables_view(self.drawables@);
                let ghost tv = drawables_view(tmp@);
                let ghost p = spec_build_layout(
                    view.layout@,
                    self.zone@,
                    self.current_id as int,
                    false,
                )->Ok_0;
                self.current_id = idn;
                self.drawables.append(&mut tmp);
                proof {
                    assert(tv =~= p.0);
                    assert(drawables_view(self.drawables@) =~= pre + p.0);
                }
                Ok(())
            },
            Err(e) => Err(e),
        }
    }
}

} // verus!

//! The widget tree: a closed set of node kinds over which the geometry
//! pipeline is defined.
//!
//! A widget is one of: a [`Layout`] owning an ordered sequence of
//! children, a [`Container`] giving one child a fixed size, a leaf
//! primitive ([`Surface`], [`Label`], [`Image`]), a composite [`Button`]
//! that expands into simpler widgets, or a controller wrapper
//! ([`Detector`]) detecting events on the widget it wraps.
//!
//! Every widget offers a one-step `build` operation: leaves return a
//! copy of themselves, composites return the layout that substitutes
//! for them.  The drawable builder applies `build` repeatedly until
//! only leaf primitives are left.
//!
//! Contracts speak of widget trees through their mathematical views:
//! [`WidgetView`] mirrors the tree with sequences in place of vectors.

use vstd::prelude::*;
use crate::align::Align;
use crate::border::Border;
use crate::colours::RGBA;
use crate::controllers::Detector;
use crate::direction::Direction;
use crate::overflow::Overflow;
use crate::zone::Size;
use crate::zone::Zone;

verus! {

/// A node of the widget tree.
#[derive(Debug)]
pub enum Widget {
    /// A layout arranging an ordered sequence of children.
    Layout(Layout),
    /// A child with an authoritative fixed size.
    Container(Container),
    /// A drawable coloured rectangle.
    Surface(Surface),
    /// A piece of text to render.
    Label(Label),
    /// An image to render.
    Image(Image),
    /// A composite button, expanding into a layout holding its label.
    Button(Button),
    /// A controller detecting taps on the widget it wraps.
    Controller(Detector),
}

/// Layout containing several widgets, with the rules aligning them.
#[derive(Debug)]
pub struct Layout {
    /// The colour of the layout's own surface.
    pub colour: RGBA,
    /// The borders of the layout's own surface.
    pub borders: Option<[Border; 4]>,
    /// Rule about children drawn past the layout's bounds.
    pub overflow: Overflow,
    /// Children alignment on the horizontal axis.
    pub wx_align: Align,
    /// Children alignment on the vertical axis.
    pub wy_align: Align,
    /// The direction of the children arrangement.
    pub direction: Direction,
    /// The widgets contained in the layout, in drawing order.
    pub widgets: Vec<Widget>,
}

/// Wraps one widget, giving it a fixed size.
///
/// The sizer never recomputes a container's size: it is authoritative.
#[derive(Debug)]
pub struct Container {
    /// The fixed size of the contained widget.
    pub size: Size,
    /// The widget contained in the fixed zone.
    pub widget: Box<Widget>,
}

/// A drawable rectangle which can be coloured, bordered or both.
#[derive(Debug, Copy, Clone, PartialEq, Eq)]
pub struct Surface {
    /// The fill colour of the surface.
    pub colour: RGBA,
    /// The borders of the surface, one for each side when present.
    pub borders: Option<[Border; 4]>,
}

/// Label widget: a text to be rendered by the host.
#[derive(Debug, PartialEq, Eq)]
pub struct Label {
    /// The text of the label.
    pub text: String,
    /// The colour of the text.
    pub colour: RGBA,
}

/// Image widget.
#[derive(Debug, Copy, Clone, PartialEq, Eq)]
pub struct Image {
    /// Aspect ratio of the image, as a width:height pair.
    pub ratio: (u32, u32),
    /// Colour painted while the image itself is not available.
    pub colour: RGBA,
}

/// Button widget with a label inside.
#[derive(Debug)]
pub struct Button {
    /// The colour of the button's surface.
    pub colour: RGBA,
    /// The label in the center of the button.
    pub label: Label,
}

/// Mathematical view of a widget tree node.
#[verifier::ext_equal]
pub ghost enum WidgetView {
    /// View of a layout node.
    Layout(LayoutView),
    /// View of a container node.
    Container(ContainerView),
    /// View of a surface leaf.
    Surface(SurfaceView),
    /// View of a label leaf.
    Label(LabelView),
    /// View of an image leaf.
    Image(Image),
    /// View of a composite button.
    Button(ButtonView),
    /// View of a controller wrapper.
    Controller(DetectorView),
}

/// Mathematical view of a layout: its rules and its children's views.
#[verifier::ext_equal]
pub ghost struct LayoutView {
    /// The colour of the layout's own surface.
    pub colour: RGBA,
    /// The borders of the layout's own surface.
    pub borders: Option<Seq<Border>>,
    /// Rule about children drawn past the layout's bounds.
    pub overflow: Overflow,
    /// Children alignment on the horizontal axis.
    pub wx_align: Align,
    /// Children alignment on the vertical axis.
    pub wy_align: Align,
    /// The direction of the children arrangement.
    pub direction: Direction,
    /// The views of the children, in drawing order.
    pub widgets: Seq<WidgetView>,
}

/// Mathematical view of a container.
#[verifier::ext_equal]
pub ghost struct ContainerView {
    /// The fixed size of the contained widget.
    pub size: Size,
    /// The view of the contained widget.
    pub widget: Box<WidgetView>,
}

/// Mathematical view of a surface.
#[verifier::ext_equal]
pub ghost struct SurfaceView {
    /// The fill colour of the surface.
    pub colour: RGBA,
    /// The borders of the surface.
    pub borders: Option<Seq<Border>>,
}

/// Mathematical view of a label.
#[verifier::ext_equal]
pub ghost struct LabelView {
    /// The characters of the label's text.
    pub text: Seq<char>,
    /// The colour of the text.
    pub colour: RGBA,
}

/// Mathematical view of a button.
#[verifier::ext_equal]
pub ghost struct ButtonView {
    /// The colour of the button's surface.
    pub colour: RGBA,
    /// The view of the label inside the button.
    pub label: LabelView,
}

/// Mathematical view of a tap detector.
#[verifier::ext_equal]
pub ghost struct DetectorView {
    /// The view of the wrapped widget.
    pub widget: Box<WidgetView>,
    /// The zone covered by the tap detection.
    pub zone: Zone,
}

/// View of an optional array of four borders, as an optional sequence.
pub open spec fn borders_view(borders: Option<[Border; 4]>) -> Option<Seq<Border>> {
    match borders {
        Some(arr) => Some(arr@),
        None => None,
    }
}

/// The views of a sequence of widgets, in order.
pub open spec fn widgets_view(s: Seq<Widget>) -> Seq<WidgetView>
    decreases s,
{
    if s.len() == 0 {
        Seq::empty()
    } else {
        widgets_view(s.drop_last()) + seq![widget_view(s.last())]
    }
}

/// A sequence of widgets is viewed elementwise.
pub broadcast proof fn lemma_widgets_view(s: Seq<Widget>)
    ensures
        (#[trigger] widgets_view(s)).len() == s.len(),
        forall|k: int| 0 <= k < s.len() ==> widgets_view(s)[k] == widget_view(s[k]),
    decreases s.len(),
{
    if s.len() > 0 {
        lemma_widgets_view(s.drop_last());
    }
}

/// The view of a widget tree.
pub open spec fn widget_view(w: Widget) -> WidgetView
    decreases w,
{
    match w {
        Widget::Layout(l) => WidgetView::Layout(layout_view(l)),
        Widget::Container(c) => WidgetView::Container(ContainerView {
            size: c.size,
            widget: Box::new(widget_view(*c.widget)),
        }),
        Widget::Surface(s) => WidgetView::Surface(SurfaceView {
            colour: s.colour,
            borders: borders_view(s.borders),
        }),
        Widget::Label(l) => WidgetView::Label(LabelView { text: l.text@, colour: l.colour }),
        Widget::Image(i) => WidgetView::Image(i),
        Widget::Button(b) => WidgetView::Button(ButtonView {
            colour: b.colour,
            label: LabelView { text: b.label.text@, colour: b.label.colour },
        }),
        Widget::Controller(d) => WidgetView::Controller(DetectorView {
            widget: Box::new(widget_view(*d.widget)),
            zone: d.zone,
        }),
    }
}

/// The view of a layout.
pub open spec fn layout_view(l: Layout) -> LayoutView
    decreases l,
{
    LayoutView {
        colour: l.colour,
        borders: borders_view(l.borders),
        overflow: l.overflow,
        wx_align: l.wx_align,
        wy_align: l.wy_align,
        direction: l.direction,
        widgets: widgets_view(l.widgets@),
    }
}

impl View for Widget {
    type V = WidgetView;

    open spec fn view(&self) -> WidgetView {
        widget_view(*self)
    }
}

impl View for Layout {
    type V = LayoutView;

    open spec fn view(&self) -> LayoutView {
        layout_view(*self)
    }
}

impl View for Label {
    type V = LabelView;

    open spec fn view(&self) -> LabelView {
        LabelView { text: self.text@, colour: self.colour }
    }
}

impl View for Detector {
    type V = DetectorView;

    open spec fn view(&self) -> DetectorView {
        DetectorView { widget: Box::new(widget_view(*self.widget)), zone: self.zone }
    }
}

impl Clone for Label {
    /// Cloning a label copies its text and colour exactly.
    fn clone(&self) -> (r: Self)
        ensures
            r == *self,
    {
        Label { text: self.text.clone(), colour: self.colour }
    }
}

/// Clones a widget and the whole tree under it: the clone has the same
/// view as the original.
pub fn clone_widget(w: &Widget) -> (r: Widget)
    ensures
        r@ == w@,
    decreases *w,
{
    match w {
        Widget::Layout(l) => Widget::Layout(clone_layout(l)),
        Widget::Container(c) => Widget::Container(Container {
            size: c.size,
            widget: Box::new(clone_widget(&*c.widget)),
        }),
        Widget::Surface(s) => Widget::Surface(*s),
        Widget::Label(l) => Widget::Label(l.clone()),
        Widget::Image(i) => Widget::Image(*i),
        Widget::Button(b) => Widget::Button(Button { colour: b.colour, label: b.label.clone() }),
        Widget::Controller(d) => Widget::Controller(Detector {
            widget: Box::new(clone_widget(&*d.widget)),
            zone: d.zone,
        }),
    }
}

/// Clones a layout and every widget it contains: the clone has the
/// same view as the original.
pub fn clone_layout(l: &Layout) -> (r: Layout)
    ensures
        r@ == l@,
    decreases *l,
{
    let n = l.widgets.len();
    let mut ws: Vec<Widget> = Vec::new();
    for k in 0..n
        invariant
            n == l.widgets@.len(),
            ws@.len() == k,
            forall|i: int| 0 <= i < k ==> widget_view(#[trigger] ws@[i]) == widget_view(
                l.widgets@[i],
            ),
    {
        ws.push(clone_widget(&l.widgets[k]));
    }
    let r = Layout {
        colour: l.colour,
        borders: l.borders,
        overflow: l.overflow,
        wx_align: l.wx_align,
        wy_align: l.wy_align,
        direction: l.direction,
        widgets: ws,
    };
    proof {
        lemma_widgets_view(ws@);
        lemma_widgets_view(l.widgets@);
        assert forall|i: int| 0 <= i < n implies widgets_view(ws@)[i] == widgets_view(
            l.widgets@,
        )[i] by {
            assert(widget_view(ws@[i]) == widget_view(l.widgets@[i]));
        }
        assert(r@.widgets =~= l@.widgets);
    }
    r
}

impl Clone for Widget {
    /// Cloning a widget clones the whole tree under it.
    fn clone(&self) -> (r: Self)
        ensures
            r@ == self@,
    {
        clone_widget(self)
    }
}

impl Clone for Layout {
    /// Cloning a layout clones every widget it contains.
    fn clone(&self) -> (r: Self)
        ensures
            r@ == self@,
    {
        clone_layout(self)
    }
}

/// What one build step of a widget with view `w` may hand back.
///
/// A layout builds into its own surface; a container expands into a
/// single-child layout holding its widget; a button expands into a
/// centered layout holding its label; leaves build into themselves; a
/// controller builds into whatever the widget it wraps builds into.
pub open spec fn built_from(w: WidgetView, r: WidgetView) -> bool
    decreases w,
{
    match w {
        WidgetView::Layout(l) => r == WidgetView::Surface(SurfaceView {
            colour: l.colour,
            borders: l.borders,
        }),
        WidgetView::Container(c) => r matches WidgetView::Layout(el)
            && el.colour == RGBA::transparent()
            && el.borders is None
            && el.overflow == Overflow::Hide
            && el.wx_align == Align::Left
            && el.wy_align == Align::Top
            && el.direction == Direction::Column
            && el.widgets == seq![*c.widget],
        WidgetView::Button(b) => r matches WidgetView::Layout(el)
            && el.colour == b.colour
            && el.borders is None
            && el.overflow == Overflow::Hide
            && el.wx_align == Align::Center
            && el.wy_align == Align::Center
            && el.direction == Direction::Column
            && el.widgets == seq![WidgetView::Label(b.label)],
        WidgetView::Controller(d) => built_from(*d.widget, r),
        _ => r == w,
    }
}

impl Widget {
    /// Builds the widget: one expansion step towards leaf primitives.
    pub fn build(&self) -> (r: Widget)
        ensures
            built_from(self@, r@),
        decreases *self,
    {
        match self {
            Widget::Layout(l) => {
                let r = Widget::Surface(Surface { colour: l.colour, borders: l.borders });
                proof {
                    assert(self@ == WidgetView::Layout(layout_view(*l)));
                    assert(r@ == WidgetView::Surface(SurfaceView {
                        colour: l.colour,
                        borders: borders_view(l.borders),
                    }));
                }
                r
            },
            Widget::Container(c) => {
                let child = clone_widget(&*c.widget);
                let ws: Vec<Widget> = vec![child];
                let r = Widget::Layout(Layout {
                    colour: RGBA::new(0, 0, 0, 0),
                    borders: None,
                    overflow: Overflow::Hide,
                    wx_align: Align::Left,
                    wy_align: Align::Top,
                    direction: Direction::Column,
                    widgets: ws,
                });
                proof {
                    lemma_widgets_view(ws@);
                    assert(ws@ =~= seq![child]);
                    assert(widgets_view(ws@)[0] == widget_view(child));
                    assert(widget_view(child) == widget_view(*c.widget));
                    assert(r->Layout_0.widgets@ == ws@);
                    assert(layout_view(r->Layout_0).widgets == widgets_view(ws@));
                    assert(r@ == WidgetView::Layout(layout_view(r->Layout_0)));
                    assert(widgets_view(ws@) =~= seq![(*c.widget)@]);
                    assert(r@->Layout_0.widgets =~= seq![(*c.widget)@]);
                }
                r
            },
            Widget::Surface(s) => Widget::Surface(*s),
            Widget::Label(l) => Widget::Label(l.clone()),
            Widget::Image(i) => Widget::Image(*i),
            Widget::Button(b) => {
                let label = b.label.clone();
                let ws: Vec<Widget> = vec![Widget::Label(label)];
                let r = Widget::Layout(Layout {
                    colour: b.colour,
                    borders: None,
                    overflow: Overflow::Hide,
                    wx_align: Align::Center,
                    wy_align: Align::Center,
                    direction: Direction::Column,
                    widgets: ws,
                });
                proof {
                    lemma_widgets_view(ws@);
                    assert(widgets_view(ws@)[0] == widget_view(ws@[0]));
                    assert(widget_view(ws@[0]) == WidgetView::Label(
                        LabelView { text: b.label.text@, colour: b.label.colour },
                    ));
                    assert(r->Layout_0.widgets@ == ws@);
                    assert(layout_view(r->Layout_0).widgets == widgets_view(ws@));
                    assert(r@ == WidgetView::Layout(layout_view(r->Layout_0)));
                    assert(r@->Layout_0.widgets =~= seq![
                        WidgetView::Label(LabelView { text: b.label.text@, colour: b.label.colour }),
                    ]);
                }
                r
            },
            Widget::Controller(d) => d.widget.build(),
        }
    }

    /// The colour attribute of a widget's view: its own for layouts and
    /// leaves, the wrapped widget's for containers and controllers.
    pub open spec fn spec_colour(w: WidgetView) -> RGBA
        decreases w,
    {
        match w {
            WidgetView::Layout(l) => l.colour,
            WidgetView::Container(c) => Widget::spec_colour(*c.widget),
            WidgetView::Surface(s) => s.colour,
            WidgetView::Label(l) => l.colour,
            WidgetView::Image(i) => i.colour,
            WidgetView::Button(b) => b.colour,
            WidgetView::Controller(d) => Widget::spec_colour(*d.widget),
        }
    }

    /// Returns the colour attribute of the widget.
    pub fn colour(&self) -> (c: RGBA)
        ensures
            c == Widget::spec_colour(self@),
        decreases *self,
    {
        match self {
            Widget::Layout(l) => {
                proof {
                    assert(*self == Widget::Layout(*l));
                    assert(self@ == WidgetView::Layout(layout_view(*l)));
                    assert(Widget::spec_colour(self@) == l.colour);
                }
                l.colour
            },
            Widget::Container(c) => c.widget.colour(),
            Widget::Surface(s) => s.colour,
            Widget::Label(l) => l.colour,
            Widget::Image(i) => i.colour,
            Widget::Button(b) => b.colour,
            Widget::Controller(d) => d.widget.colour(),
        }
    }
}

/// Termination measure of the build recursion: strictly larger than the
/// measure of anything one build step can expand a widget into.
pub open spec fn rank(w: WidgetView) -> nat
    decreases w, 0int,
{
    match w {
        WidgetView::Layout(l) => 1 + rank_children(l.widgets, 0),
        WidgetView::Container(c) => 4 + rank(*c.widget),
        WidgetView::Button(_) => 4,
        WidgetView::Controller(d) => 1 + rank(*d.widget),
        _ => 0,
    }
}

/// Combined rank of the children of a layout, from index `idx` on.
pub open spec fn rank_children(s: Seq<WidgetView>, idx: int) -> nat
    decreases s, s.len() - idx,
{
    if idx < 0 || idx >= s.len() {
        0
    } else {
        2 + rank(s[idx]) + rank_children(s, idx + 1)
    }
}

/// The rank of any child is below the combined rank of the children
/// from any index at or before it.
pub proof fn lemma_rank_children_elem(s: Seq<WidgetView>, idx: int, k: int)
    requires
        0 <= idx <= k < s.len(),
    ensures
        2 + rank(s[k]) <= rank_children(s, idx),
    decreases k - idx,
{
    if idx < k {
        lemma_rank_children_elem(s, idx + 1, k);
    }
}

/// One build step strictly shrinks the rank: whenever it hands back a
/// layout, that layout ranks below the widget it came from.
pub proof fn lemma_built_rank(w: WidgetView, r: WidgetView)
    requires
        built_from(w, r),
        r is Layout,
    ensures
        rank(r) < rank(w),
    decreases w,
{
    match w {
        WidgetView::Container(c) => {
            let el = r->Layout_0;
            assert(rank_children(el.widgets, 1) == 0);
            assert(rank_children(el.widgets, 0) == 2 + rank(*c.widget));
        },
        WidgetView::Button(b) => {
            let el = r->Layout_0;
            assert(el.widgets[0] == WidgetView::Label(b.label));
            assert(rank(el.widgets[0]) == 0);
            assert(rank_children(el.widgets, 1) == 0);
            assert(rank_children(el.widgets, 0) == 2);
        },
        WidgetView::Controller(d) => {
            lemma_built_rank(*d.widget, r);
        },
        _ => {},
    }
}

/// A build step only hands back a surface, a label, an image or a
/// layout: the composite kinds always expand away.
pub proof fn lemma_built_kind(w: WidgetView, r: WidgetView)
    requires
        built_from(w, r),
    ensures
        r is Surface || r is Label || r is Image || r is Layout,
    decreases w,
{
    match w {
        WidgetView::Controller(d) => {
            lemma_built_kind(*d.widget, r);
        },
        _ => {},
    }
}

/// How many drawable group identifiers the subtree of one child slot
/// claims during a build: one for the slot itself, plus one for each
/// slot below it when the child is a layout.
pub open spec fn slot_count(w: WidgetView) -> nat
    decreases w, 0int,
{
    match w {
        WidgetView::Layout(l) => slot_count_children(l.widgets, 0),
        _ => 0,
    }
}

/// Group identifiers claimed by the child slots of a layout, from
/// index `idx` on.
pub open spec fn slot_count_children(s: Seq<WidgetView>, idx: int) -> nat
    decreases s, s.len() - idx,
{
    if idx < 0 || idx >= s.len() {
        0
    } else {
        1 + slot_count(s[idx]) + slot_count_children(s, idx + 1)
    }
}

impl Layout {
    /// Creates a new layout, coloured and bordered.
    pub fn new(
        colour: RGBA,
        borders: [Border; 4],
        overflow: Overflow,
        wx_align: Align,
        wy_align: Align,
        direction: Direction,
        widgets: Vec<Widget>,
    ) -> (r: Self)
        ensures
            r == (Layout {
                colour,
                borders: Some(borders),
                overflow,
                wx_align,
                wy_align,
                direction,
                widgets,
            }),
    {
        Layout { colour, borders: Some(borders), overflow, wx_align, wy_align, direction, widgets }
    }

    /// Creates the simplest layout possible: transparent and unbordered.
    pub fn simple(
        overflow: Overflow,
        wx_align: Align,
        wy_align: Align,
        direction: Direction,
        widgets: Vec<Widget>,
    ) -> (r: Self)
        ensures
            r == (Layout {
                colour: RGBA::transparent(),
                borders: None,
                overflow,
                wx_align,
                wy_align,
                direction,
                widgets,
            }),
    {
        Layout {
            colour: RGBA::new(0, 0, 0, 0),
            borders: None,
            overflow,
            wx_align,
            wy_align,
            direction,
            widgets,
        }
    }

    /// Creates a new layout with a colour and no borders.
    pub fn coloured(
        colour: RGBA,
        overflow: Overflow,
        wx_align: Align,
        wy_align: Align,
        direction: Direction,
        widgets: Vec<Widget>,
    ) -> (r: Self)
        ensures
            r == (Layout { colour, borders: None, overflow, wx_align, wy_align, direction, widgets }),
    {
        Layout { colour, borders: None, overflow, wx_align, wy_align, direction, widgets }
    }

    /// Creates a transparent layout with borders.
    pub fn bordered(
        borders: [Border; 4],
        overflow: Overflow,
        wx_align: Align,
        wy_align: Align,
        direction: Direction,
        widgets: Vec<Widget>,
    ) -> (r: Self)
        ensures
            r == (Layout {
                colour: RGBA::transparent(),
                borders: Some(borders),
                overflow,
                wx_align,
                wy_align,
                direction,
                widgets,
            }),
    {
        Layout {
            colour: RGBA::new(0, 0, 0, 0),
            borders: Some(borders),
            overflow,
            wx_align,
            wy_align,
            direction,
            widgets,
        }
    }
}

impl Default for Layout {
    /// The default layout is empty and transparent, centering its
    /// children on both axes and arranging them as columns.
    fn default() -> (r: Self)
        ensures
            r@ == (LayoutView {
                colour: RGBA::transparent(),
                borders: None,
                overflow: Overflow::Ignore,
                wx_align: Align::Center,
                wy_align: Align::Center,
                direction: Direction::Column,
                widgets: Seq::<WidgetView>::empty(),
            }),
    {
        let r = Layout {
            colour: RGBA::new(0, 0, 0, 0),
            borders: None,
            overflow: Overflow::Ignore,
            wx_align: Align::Center,
            wy_align: Align::Center,
            direction: Direction::Column,
            widgets: Vec::new(),
        };
        proof {
            lemma_widgets_view(r.widgets@);
            assert(r@.widgets =~= Seq::<WidgetView>::empty());
        }
        r
    }
}

impl Container {
    /// Creates a new container giving `widget` the fixed size `size`.
    pub fn new(size: Size, widget: Widget) -> (r: Self)
        ensures
            r.size == size,
            *r.widget == widget,
    {
        Container { size, widget: Box::new(widget) }
    }
}

impl Surface {
    /// Creates a new coloured surface with optional borders.
    pub fn new(colour: RGBA, borders: Option<[Border; 4]>) -> (r: Self)
        ensures
            r == (Surface { colour, borders }),
    {
        Surface { colour, borders }
    }

    /// Creates a transparent surface without borders.
    pub fn normal() -> (r: Self)
        ensures
            r == (Surface { colour: RGBA::transparent(), borders: None }),
    {
        Surface { colour: RGBA::new(0, 0, 0, 0), borders: None }
    }
}

impl Label {
    /// Creates a label with the given text colour.
    pub fn new(text: &str, colour: RGBA) -> (r: Self)
        ensures
            r.text@ == text@,
            r.colour == colour,
    {
        Label { text: text.to_string(), colour }
    }

    /// Creates a label with the default text colour, black.
    pub fn simple(text: &str) -> (r: Self)
        ensures
            r.text@ == text@,
            r.colour == (RGBA { r: 0, g: 0, b: 0, a: 255 }),
    {
        Label { text: text.to_string(), colour: RGBA::new(0, 0, 0, 255) }
    }
}

impl Button {
    /// Creates a button with an independent surface colour.
    pub fn styled(colour: RGBA, label: Label) -> (r: Self)
        ensures
            r.colour == colour,
            r.label == label,
    {
        Button { colour, label }
    }

    /// Creates a transparent button.
    pub fn normal(label: Label) -> (r: Self)
        ensures
            r.colour == RGBA::transparent(),
            r.label == label,
    {
        Button { colour: RGBA::new(0, 0, 0, 0), label }
    }
}

} // verus!


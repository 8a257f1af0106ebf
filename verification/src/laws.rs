//! Laws of the geometry pipeline, stated and proved once and for all.

use vstd::prelude::*;
use vstd::arithmetic::div_mod::lemma_fundamental_div_mod;
use crate::align::Align;
use crate::aligner::half_diff;
use crate::aligner::spec_child_position;
use crate::aligner::spec_positions;
use crate::aligner::sum_h;
use crate::aligner::sum_w;
use crate::controllers::spec_is_tapped;
use crate::direction::Direction;
use crate::border::Border;
use crate::colours::RGBA;
use crate::draw::Drawable;
use crate::draw::DrawableView;
use crate::draw::child_zone_of;
use crate::draw::drawables_view;
use crate::draw::spec_build_children;
use crate::draw::spec_build_layout;
use crate::draw::spec_build_parts;
use crate::draw::spec_build_widget;
use crate::draw::find_group;
use crate::controllers::spec_rebind_children;
use crate::controllers::spec_zone_at;
use crate::sizer::spec_sizes;
use crate::sizer::fixed_height;
use crate::sizer::fixed_width;
use crate::sizer::flex_count;
use crate::sizer::spec_flex_size;
use crate::viewport::Viewport;
use crate::error::LayoutError;
use crate::widgets::LayoutView;
use crate::widgets::WidgetView;
use crate::widgets::rank;
use crate::widgets::rank_children;
use crate::widgets::slot_count;
use crate::widgets::slot_count_children;
use crate::draw::lemma_children_next_id;
use crate::draw::lemma_parts_next_id;
use crate::draw::lemma_widget_next_id;
use crate::zone::ZoneView;
use crate::zone::Point;
use crate::zone::Zone;

verus! {

/// Size conservation: the flexible children of a layout never claim
/// more of the main axis than the zone leaves after its fixed
/// children, and they claim exactly that leftover when it divides
/// evenly among them.
///
/// The law speaks of layouts whose fixed children fit the zone; when
/// they already exceed it, the flexible children get width zero and
/// the leftover is negative.
pub proof fn lemma_size_conservation(dir: Direction, s: Seq<WidgetView>, zw: int, zh: int)
    requires
        flex_count(s, s.len() as int) >= 1,
        match dir {
            Direction::Column => fixed_width(s, s.len() as int) <= zw,
            Direction::Row => fixed_height(s, s.len() as int) <= zh,
        },
    ensures
        ({
            let k = flex_count(s, s.len() as int);
            let (flex, leftover) = match dir {
                Direction::Column => (
                    spec_flex_size(dir, s, zw, zh).0,
                    zw - fixed_width(s, s.len() as int),
                ),
                Direction::Row => (
                    spec_flex_size(dir, s, zw, zh).1,
                    zh - fixed_height(s, s.len() as int),
                ),
            };
            &&& k * flex <= leftover
            &&& leftover % k == 0 ==> k * flex == leftover
        }),
{
    let n = s.len() as int;
    let k = flex_count(s, n);
    let leftover = match dir {
        Direction::Column => zw - fixed_width(s, n),
        Direction::Row => zh - fixed_height(s, n),
    };
    lemma_fundamental_div_mod(leftover, k);
    assert(leftover == k * (leftover / k) + leftover % k);
}

/// Idempotence: two builds of one viewport, with the same zone and an
/// unmutated tree, hand back drawable sequences with identical views:
/// same order, same classified objects, same groups, same geometry.
pub proof fn lemma_build_idempotent(v: Viewport, r1: Seq<Drawable>, r2: Seq<Drawable>)
    requires
        v.spec_build() matches Ok(m) && drawables_view(r1) == m,
        v.spec_build() matches Ok(m) && drawables_view(r2) == m,
    ensures
        drawables_view(r1) == drawables_view(r2),
{
}

/// Alignment symmetry: when the main axis is centered, the leftover
/// space before the first child and the leftover space after the last
/// child differ by at most one unit of integer rounding.
pub proof fn lemma_center_symmetry(
    dir: Direction,
    wx: Align,
    wy: Align,
    ax: int,
    ay: int,
    sizes: Seq<(int, int)>,
)
    requires
        spec_positions(dir, wx, wy, ax, ay, sizes) is Ok,
        sizes.len() >= 2,
        forall|i: int| 0 <= i < sizes.len() ==> (#[trigger] sizes[i]).0 >= 0 && sizes[i].1 >= 0,
        match dir {
            Direction::Column => wx == Align::Center,
            Direction::Row => wy == Align::Center,
        },
    ensures
        ({
            let ps = spec_positions(dir, wx, wy, ax, ay, sizes)->Ok_0;
            let cs = sizes.subrange(1, sizes.len() as int);
            let n = cs.len() as int;
            let (anchor, parent, first, stack_end) = match dir {
                Direction::Column => (ax, sizes[0].0, ps[1].0, ps[n].0 + cs[n - 1].0),
                Direction::Row => (ay, sizes[0].1, ps[1].1, ps[n].1 + cs[n - 1].1),
            };
            let before = first - anchor;
            let after = parent - (stack_end - anchor);
            -1 <= before - after <= 1
        }),
{
    let ps = spec_positions(dir, wx, wy, ax, ay, sizes)->Ok_0;
    let cs = sizes.subrange(1, sizes.len() as int);
    let n = cs.len() as int;
    assert(ps[1] == spec_child_position(dir, wx, wy, ax, ay, sizes[0].0, sizes[0].1, cs, 0));
    assert(ps[n] == spec_child_position(dir, wx, wy, ax, ay, sizes[0].0, sizes[0].1, cs, n - 1));
    match dir {
        Direction::Column => {
            let parent = sizes[0].0;
            let total = sum_w(cs, n);
            lemma_sum_w_last(cs, n);
            assert(sum_w(cs, 0) == 0);
            assert(ps[1].0 - ax == half_diff(parent, total));
            assert(ps[n].0 - ax == half_diff(parent, total) + sum_w(cs, n - 1));
            lemma_half_diff(parent, total);
        },
        Direction::Row => {
            let parent = sizes[0].1;
            let total = sum_h(cs, n);
            lemma_sum_h_last(cs, n);
            assert(sum_h(cs, 0) == 0);
            assert(ps[1].1 - ay == half_diff(parent, total));
            assert(ps[n].1 - ay == half_diff(parent, total) + sum_h(cs, n - 1));
            lemma_half_diff(parent, total);
        },
    }
}

/// Splitting a difference in two halves, rounded towards zero, loses
/// at most one unit: the two halves sum back to within one of it.
proof fn lemma_half_diff(p: int, t: int)
    ensures
        -1 <= half_diff(p, t) + (half_diff(p, t) + t - p) <= 1,
{
    if p >= t {
        lemma_fundamental_div_mod(p - t, 2);
    } else {
        lemma_fundamental_div_mod(t - p, 2);
    }
}

/// The last summand of a width prefix sum.
proof fn lemma_sum_w_last(cs: Seq<(int, int)>, n: int)
    requires
        1 <= n,
    ensures
        sum_w(cs, n) == sum_w(cs, n - 1) + cs[n - 1].0,
{
}

/// The last summand of a height prefix sum.
proof fn lemma_sum_h_last(cs: Seq<(int, int)>, n: int)
    requires
        1 <= n,
    ensures
        sum_h(cs, n) == sum_h(cs, n - 1) + cs[n - 1].1,
{
}

/// Hit-test correctness: a point exactly on a zone's boundary is
/// inside; a point past any boundary, by one unit or more, is outside.
pub proof fn lemma_hit_test_boundary(tap: Point, zone: Zone)
    ensures
        (tap.x == zone@.x || tap.x == zone@.x + zone@.w) && zone@.y <= tap.y <= zone@.y + zone@.h
            ==> spec_is_tapped(tap, zone),
        (tap.y == zone@.y || tap.y == zone@.y + zone@.h) && zone@.x <= tap.x <= zone@.x + zone@.w
            ==> spec_is_tapped(tap, zone),
        tap.x < zone@.x || tap.x > zone@.x + zone@.w || tap.y < zone@.y || tap.y > zone@.y
            + zone@.h ==> !spec_is_tapped(tap, zone),
{
}


/// A chained run of group identifiers: the sequence starts at `lo`,
/// ends at `hi`, never leaves that band, and from one drawable to the
/// next the group either stays or grows by exactly one.
pub open spec fn groups_chain(ds: Seq<DrawableView>, lo: int, hi: int) -> bool {
    &&& ds.len() > 0
    &&& ds[0].group == lo
    &&& ds[ds.len() - 1].group == hi
    &&& forall|j: int| 0 <= j < ds.len() ==> lo <= (#[trigger] ds[j]).group <= hi
    &&& forall|j: int|
        1 <= j < ds.len() ==> (#[trigger] ds[j]).group == ds[j - 1].group || ds[j].group == ds[j
            - 1].group + 1
}

/// Two chained runs whose bands meet, exactly or with a step of one,
/// concatenate into one chained run.
proof fn lemma_chain_concat(a: Seq<DrawableView>, b: Seq<DrawableView>, lo: int, mid: int, lo2: int, hi: int)
    requires
        groups_chain(a, lo, mid),
        groups_chain(b, lo2, hi),
        mid <= lo2 <= mid + 1,
    ensures
        groups_chain(a + b, lo, hi),
{
    let c = a + b;
    assert(c[0] == a[0]);
    assert(c[c.len() - 1] == b[b.len() - 1]);
    assert(lo <= mid);
    assert(lo2 <= hi);
    assert forall|j: int| 0 <= j < c.len() implies lo <= (#[trigger] c[j]).group <= hi by {
        if j < a.len() {
            assert(c[j] == a[j]);
        } else {
            assert(c[j] == b[j - a.len()]);
        }
    }
    assert forall|j: int|
        1 <= j < c.len() implies (#[trigger] c[j]).group == c[j - 1].group || c[j].group == c[j
            - 1].group + 1 by {
        if j < a.len() {
            assert(c[j] == a[j]);
            assert(c[j - 1] == a[j - 1]);
        } else if j == a.len() {
            assert(c[j] == b[0]);
            assert(c[j - 1] == a[a.len() - 1]);
        } else {
            assert(c[j] == b[j - a.len()]);
            assert(c[j - 1] == b[j - a.len() - 1]);
        }
    }
}

/// The groups of what a layout build emits form a chained run from the
/// layout's own group to the group identifier handed back; inside a
/// build expansion the run stays on one group.
pub proof fn lemma_parts_groups(
    dir: Direction,
    wx: Align,
    wy: Align,
    colour: RGBA,
    borders: Option<Seq<Border>>,
    children: Seq<WidgetView>,
    zone: crate::zone::ZoneView,
    id: int,
    fb: bool,
)
    ensures
        spec_build_parts(dir, wx, wy, colour, borders, children, zone, id, fb) matches Ok(p)
            ==> groups_chain(p.0, id, p.1) && (fb ==> p.1 == id),
    decreases rank_children(children, 0), 1int,
{
    let sizes = spec_sizes(dir, children, zone.w, zone.h);
    match spec_positions(dir, wx, wy, zone.x, zone.y, sizes) {
        Ok(ps) => {
            lemma_children_groups(children, sizes, ps, 0, id, fb);
            match spec_build_children(children, sizes, ps, 0, id, fb) {
                Ok((ds, idn)) => {
                    let own = DrawableView {
                        object: crate::draw::ObjectView::Surface(
                            crate::widgets::SurfaceView { colour, borders },
                        ),
                        group: id,
                        zone,
                    };
                    assert(groups_chain(seq![own], id, id));
                    if ds.len() == 0 {
                        assert(seq![own] + ds =~= seq![own]);
                    } else {
                        lemma_chain_concat(
                            seq![own],
                            ds,
                            id,
                            id,
                            if fb {
                                id
                            } else {
                                id + 1
                            },
                            idn,
                        );
                    }
                },
                Err(_) => {},
            }
        },
        Err(_) => {},
    }
}

/// The groups of what the child slots from `idx` on emit form a
/// chained run from the first slot's group to the identifier handed
/// back.
pub proof fn lemma_children_groups(
    children: Seq<WidgetView>,
    sizes: Seq<(int, int)>,
    ps: Seq<(int, int)>,
    idx: int,
    id: int,
    fb: bool,
)
    ensures
        spec_build_children(children, sizes, ps, idx, id, fb) matches Ok(p) ==> if 0 <= idx
            < children.len() {
            groups_chain(
                p.0,
                if fb {
                    id
                } else {
                    id + 1
                },
                p.1,
            ) && (fb ==> p.1 == id)
        } else {
            p.0.len() == 0 && p.1 == id
        },
    decreases rank_children(children, idx), 0int,
{
    if 0 <= idx < children.len() {
        assert(rank_children(children, idx) == 2 + rank(children[idx]) + rank_children(
            children,
            idx + 1,
        ));
        let id2 = if fb {
            id
        } else {
            id + 1
        };
        let zone = child_zone_of(sizes, ps, idx);
        let head = match children[idx] {
            WidgetView::Layout(sub) => spec_build_layout(sub, zone, id2, fb),
            w => spec_build_widget(w, zone, id2),
        };
        match children[idx] {
            WidgetView::Layout(sub) => {
                assert(rank(children[idx]) == 1 + rank_children(sub.widgets, 0));
                lemma_parts_groups(
                    sub.direction,
                    sub.wx_align,
                    sub.wy_align,
                    sub.colour,
                    sub.borders,
                    sub.widgets,
                    zone,
                    id2,
                    fb,
                );
            },
            w => {
                lemma_widget_groups(w, zone, id2);
            },
        }
        if head is Ok {
            let (hd, idh) = head->Ok_0;
            lemma_children_groups(children, sizes, ps, idx + 1, idh, fb);
            match spec_build_children(children, sizes, ps, idx + 1, idh, fb) {
                Ok((tl, idt)) => {
                    if tl.len() == 0 {
                        assert(hd + tl =~= hd);
                    } else {
                        lemma_chain_concat(
                            hd,
                            tl,
                            id2,
                            idh,
                            if fb {
                                idh
                            } else {
                                idh + 1
                            },
                            idt,
                        );
                    }
                },
                Err(_) => {},
            }
        }
    }
}

/// Everything one non-layout slot emits stays on the slot's group.
pub proof fn lemma_widget_groups(w: WidgetView, zone: crate::zone::ZoneView, id: int)
    ensures
        spec_build_widget(w, zone, id) matches Ok(p) ==> groups_chain(p.0, id, id) && p.1 == id,
    decreases rank(w), 2int,
{
    match w {
        WidgetView::Container(c) => {
            assert(rank_children(seq![*c.widget], 1) == 0);
            assert(rank_children(seq![*c.widget], 0) == 2 + rank(*c.widget));
            lemma_parts_groups(
                Direction::Column,
                Align::Left,
                Align::Top,
                RGBA::transparent(),
                None,
                seq![*c.widget],
                zone,
                id,
                true,
            );
        },
        WidgetView::Button(b) => {
            assert(rank_children(seq![WidgetView::Label(b.label)], 1) == 0);
            assert(rank(WidgetView::Label(b.label)) == 0);
            assert(rank_children(seq![WidgetView::Label(b.label)], 0) == 2);
            lemma_parts_groups(
                Direction::Column,
                Align::Center,
                Align::Center,
                b.colour,
                None,
                seq![WidgetView::Label(b.label)],
                zone,
                id,
                true,
            );
        },
        WidgetView::Controller(d) => {
            lemma_widget_groups(*d.widget, zone, id);
        },
        _ => {},
    }
}

/// Whether some drawable of the sequence carries group `g`.
pub open spec fn has_group(m: Seq<DrawableView>, g: int) -> bool {
    exists|j: int| 0 <= j < m.len() && (#[trigger] m[j]).group == g
}

/// A chained run passes through every group of its band: starting at
/// `lo`, ending at `hi` and never jumping by more than one, it must
/// visit each value in between.
proof fn lemma_chain_hits(m: Seq<DrawableView>, lo: int, hi: int, g: int)
    requires
        groups_chain(m, lo, hi),
        lo <= g <= hi,
    ensures
        exists|j: int| 0 <= j < m.len() && (#[trigger] m[j]).group == g,
    decreases m.len(),
{
    let n = m.len() as int;
    if g == hi {
        assert(m[n - 1].group == g);
    } else {
        assert(n >= 2);
        let p = m.drop_last();
        assert forall|i: int, j: int| 0 <= i <= j < n implies m[i].group <= m[j].group by {
            lemma_chain_sorted(m, lo, hi, i, j);
        }
        assert(groups_chain(p, lo, m[n - 2].group));
        assert(g <= hi - 1 <= m[n - 2].group);
        lemma_chain_hits(p, lo, m[n - 2].group, g);
        let j = choose|j: int| 0 <= j < p.len() && (#[trigger] p[j]).group == g;
        assert(m[j].group == g);
    }
}

/// In a chained run the groups never decrease, however far apart.
proof fn lemma_chain_sorted(m: Seq<DrawableView>, lo: int, hi: int, i: int, j: int)
    requires
        groups_chain(m, lo, hi),
        0 <= i <= j < m.len(),
    ensures
        m[i].group <= m[j].group,
    decreases j - i,
{
    if i < j {
        lemma_chain_sorted(m, lo, hi, i + 1, j);
    }
}

/// Order stability: in any build of a viewport the drawables' group
/// identifiers start at zero, never decrease along the sequence, and
/// never skip a value, so every group `g` appears before `g + 1`.
pub proof fn lemma_order_stability(v: Viewport, ds: Seq<Drawable>)
    requires
        v.spec_build() matches Ok(m) && drawables_view(ds) == m,
    ensures
        ds.len() > 0,
        drawables_view(ds)[0].group == 0,
        forall|i: int, j: int|
            0 <= i <= j < ds.len() ==> (#[trigger] drawables_view(ds)[i]).group <= (
            #[trigger] drawables_view(ds)[j]).group,
        forall|j: int|
            1 <= j < ds.len() ==> (#[trigger] drawables_view(ds)[j]).group <= drawables_view(
                ds,
            )[j - 1].group + 1,
        forall|g: int|
            0 <= g <= drawables_view(ds)[ds.len() - 1].group ==> #[trigger] has_group(
                drawables_view(ds),
                g,
            ),
{
    let m = drawables_view(ds);
    let l = v.layout@;
    lemma_parts_groups(
        l.direction,
        l.wx_align,
        l.wy_align,
        l.colour,
        l.borders,
        l.widgets,
        v.zone@,
        0,
        false,
    );
    let p = spec_build_layout(l, v.zone@, 0, false)->Ok_0;
    assert(groups_chain(m, 0, p.1));
    assert forall|i: int, j: int|
        0 <= i <= j < ds.len() implies (#[trigger] m[i]).group <= (#[trigger] m[j]).group by {
        lemma_chain_sorted(m, 0, p.1, i, j);
    }
    assert forall|g: int| 0 <= g <= m[ds.len() - 1].group implies #[trigger] has_group(m, g) by {
        lemma_chain_hits(m, 0, p.1, g);
    }
}


/// The run of drawables a layout build emits opens with the layout's
/// own drawable: it carries the layout's group and covers its zone.
pub proof fn lemma_parts_first_drawable(
    dir: Direction,
    wx: Align,
    wy: Align,
    colour: RGBA,
    borders: Option<Seq<Border>>,
    children: Seq<WidgetView>,
    zone: crate::zone::ZoneView,
    id: int,
    fb: bool,
)
    ensures
        spec_build_parts(dir, wx, wy, colour, borders, children, zone, id, fb) matches Ok(p) ==> {
            &&& p.0.len() > 0
            &&& p.0[0].group == id
            &&& p.0[0].zone == zone
        },
{
}

/// The run of drawables one non-layout slot emits opens with a
/// drawable that carries the slot's group and covers the slot's zone:
/// the zone the browser will later bind to a controller in that slot.
pub proof fn lemma_widget_first_drawable(w: WidgetView, zone: crate::zone::ZoneView, id: int)
    ensures
        spec_build_widget(w, zone, id) matches Ok(p) ==> {
            &&& p.0.len() > 0
            &&& p.0[0].group == id
            &&& p.0[0].zone == zone
        },
    decreases rank(w), 2int,
{
    match w {
        WidgetView::Container(c) => {
            lemma_parts_first_drawable(
                Direction::Column,
                Align::Left,
                Align::Top,
                RGBA::transparent(),
                None,
                seq![*c.widget],
                zone,
                id,
                true,
            );
            assert(rank_children(seq![*c.widget], 1) == 0);
            assert(rank_children(seq![*c.widget], 0) == 2 + rank(*c.widget));
        },
        WidgetView::Button(b) => {
            lemma_parts_first_drawable(
                Direction::Column,
                Align::Center,
                Align::Center,
                b.colour,
                None,
                seq![WidgetView::Label(b.label)],
                zone,
                id,
                true,
            );
            assert(rank_children(seq![WidgetView::Label(b.label)], 1) == 0);
            assert(rank(WidgetView::Label(b.label)) == 0);
            assert(rank_children(seq![WidgetView::Label(b.label)], 0) == 2);
        },
        WidgetView::Controller(d) => {
            lemma_widget_first_drawable(*d.widget, zone, id);
        },
        _ => {},
    }
}


/// Searching past a prefix lands where searching the rest would.
proof fn lemma_find_group_offset(a: Seq<DrawableView>, b: Seq<DrawableView>, g: int, t: int)
    requires
        0 <= t <= b.len(),
    ensures
        find_group(a + b, g, a.len() + t) == a.len() + find_group(b, g, t),
    decreases b.len() - t,
{
    if t < b.len() {
        assert((a + b)[a.len() + t] == b[t]);
        lemma_find_group_offset(a, b, g, t + 1);
    }
}

/// A prefix without the group is skipped whole by the search.
proof fn lemma_find_group_prefix(a: Seq<DrawableView>, b: Seq<DrawableView>, g: int, k: int)
    requires
        0 <= k <= a.len(),
        forall|j: int| k <= j < a.len() ==> (#[trigger] a[j]).group != g,
    ensures
        find_group(a + b, g, k) == a.len() + find_group(b, g, 0),
    decreases a.len() - k,
{
    if k == a.len() {
        lemma_find_group_offset(a, b, g, 0);
    } else {
        assert((a + b)[k] == a[k]);
        lemma_find_group_prefix(a, b, g, k + 1);
    }
}

/// Whether `rebound` is the children `children[idx..]` correctly
/// rebound to the zones a build computed: every controller's stored
/// zone becomes its slot's zone, nested layouts are rebound below
/// their own zones, and everything else is untouched.
pub open spec fn rebound_correct(
    children: Seq<WidgetView>,
    sizes: Seq<(int, int)>,
    ps: Seq<(int, int)>,
    rebound: Seq<WidgetView>,
    idx: int,
) -> bool
    decreases rank_children(children, idx), 2int,
{
    if idx < 0 || idx >= children.len() {
        rebound.len() == 0
    } else {
        &&& rebound.len() == children.len() - idx
        &&& rebound_slot_correct(children[idx], child_zone_of(sizes, ps, idx), rebound[0])
        &&& rebound_correct(children, sizes, ps, rebound.drop_first(), idx + 1)
    }
}

/// Whether `r` is the widget `w` correctly rebound inside `zone`.
pub open spec fn rebound_slot_correct(w: WidgetView, zone: ZoneView, r: WidgetView) -> bool
    decreases rank(w), 1int,
{
    match w {
        WidgetView::Layout(sub) => {
            let sizes = spec_sizes(sub.direction, sub.widgets, zone.w, zone.h);
            r matches WidgetView::Layout(sub2) && sub2.colour == sub.colour && sub2.borders
                == sub.borders && sub2.overflow == sub.overflow && sub2.wx_align == sub.wx_align
                && sub2.wy_align == sub.wy_align && sub2.direction == sub.direction
                && rebound_correct(
                sub.widgets,
                sizes,
                spec_positions(
                    sub.direction,
                    sub.wx_align,
                    sub.wy_align,
                    zone.x,
                    zone.y,
                    sizes,
                )->Ok_0,
                sub2.widgets,
                0,
            )
        },
        WidgetView::Controller(d) => r matches WidgetView::Controller(d2) && d2.widget == d.widget
            && d2.zone@ == zone,
        _ => r == w,
    }
}

/// The browse pass matches the build pass, level by level: rebinding
/// the children `children[idx..]` with the cursor at their first
/// slot's group binds every controller to the zone its slot was built
/// in, provided the drawables hold the build's output, with anything
/// emitted before the range carrying smaller groups and anything after
/// it larger ones.
#[verifier::rlimit(100)]
#[verifier::spinoff_prover]
proof fn lemma_rebind_level(
    children: Seq<WidgetView>,
    sizes: Seq<(int, int)>,
    ps: Seq<(int, int)>,
    dsv: Seq<Drawable>,
    pre: Seq<DrawableView>,
    suf: Seq<DrawableView>,
    idx: int,
    id: int,
)
    requires
        0 <= idx,
        spec_build_children(children, sizes, ps, idx, id, false) is Ok,
        drawables_view(dsv) == pre + spec_build_children(
            children,
            sizes,
            ps,
            idx,
            id,
            false,
        )->Ok_0.0 + suf,
        forall|j: int| 0 <= j < pre.len() ==> (#[trigger] pre[j]).group <= id,
        forall|j: int|
            0 <= j < suf.len() ==> (#[trigger] suf[j]).group >= spec_build_children(
                children,
                sizes,
                ps,
                idx,
                id,
                false,
            )->Ok_0.1 + 1,
    ensures
        rebound_correct(children, sizes, ps, spec_rebind_children(children, dsv, id + 1, idx), idx),
    decreases rank_children(children, idx), 3int,
{
    let run = spec_build_children(children, sizes, ps, idx, id, false)->Ok_0;
    if idx < children.len() {
        assert(rank_children(children, idx) == 2 + rank(children[idx]) + rank_children(
            children,
            idx + 1,
        ));
        let g = id + 1;
        let czone = child_zone_of(sizes, ps, idx);
        let head = match children[idx] {
            WidgetView::Layout(sub) => spec_build_layout(sub, czone, g, false),
            w => spec_build_widget(w, czone, g),
        };
        let (hd, idh) = head->Ok_0;
        let rest = spec_build_children(children, sizes, ps, idx + 1, idh, false);
        let (tl, idt) = rest->Ok_0;
        assert(run.0 == hd + tl);
        assert(run.1 == idt);
        lemma_children_groups(children, sizes, ps, idx + 1, idh, false);
        lemma_children_next_id(children, sizes, ps, idx + 1, idh, false);
        assert(idt >= idh);
        assert(forall|j: int| 0 <= j < tl.len() ==> (#[trigger] tl[j]).group >= idh + 1);
        let rb = spec_rebind_children(children, dsv, id + 1, idx);
        match children[idx] {
            WidgetView::Layout(sub) => {
                assert(rank(children[idx]) == 1 + rank_children(sub.widgets, 0));
                assert(slot_count(children[idx]) == slot_count_children(sub.widgets, 0));
                lemma_parts_groups(
                    sub.direction,
                    sub.wx_align,
                    sub.wy_align,
                    sub.colour,
                    sub.borders,
                    sub.widgets,
                    czone,
                    g,
                    false,
                );
                lemma_parts_next_id(
                    sub.direction,
                    sub.wx_align,
                    sub.wy_align,
                    sub.colour,
                    sub.borders,
                    sub.widgets,
                    czone,
                    g,
                    false,
                );
                let sizes2 = spec_sizes(sub.direction, sub.widgets, czone.w, czone.h);
                let ps2 = spec_positions(
                    sub.direction,
                    sub.wx_align,
                    sub.wy_align,
                    czone.x,
                    czone.y,
                    sizes2,
                )->Ok_0;
                let own = hd[0];
                let subrun = spec_build_children(sub.widgets, sizes2, ps2, 0, g, false)->Ok_0;
                assert(hd == seq![own] + subrun.0);
                assert(own.group == g);
                lemma_children_next_id(sub.widgets, sizes2, ps2, 0, g, false);
                assert(subrun.1 == idh);
                assert(drawables_view(dsv) =~= (pre + seq![own]) + subrun.0 + (tl + suf));
                assert(forall|j: int|
                    0 <= j < (pre + seq![own]).len() ==> (#[trigger] (pre + seq![own])[j]).group
                        <= g);
                assert(forall|j: int|
                    0 <= j < (tl + suf).len() ==> (#[trigger] (tl + suf)[j]).group >= idh + 1);
                lemma_rebind_level(sub.widgets, sizes2, ps2, dsv, pre + seq![own], tl + suf, 0, g);
            },
            WidgetView::Controller(d) => {
                lemma_widget_groups(children[idx], czone, g);
                lemma_widget_first_drawable(children[idx], czone, g);
                lemma_widget_next_id(children[idx], czone, g);
                assert(idh == g);
                assert(forall|j: int| 0 <= j < pre.len() ==> (#[trigger] pre[j]).group != g);
                assert(drawables_view(dsv) =~= pre + (hd + tl + suf));
                lemma_find_group_prefix(pre, hd + tl + suf, g, 0);
                assert((hd + tl + suf)[0] == hd[0]);
                assert(find_group(hd + tl + suf, g, 0) == 0);
                let j = find_group(drawables_view(dsv), g, 0);
                assert(j == pre.len());
                assert(drawables_view(dsv)[j] == hd[0]);
                assert(dsv[j]@.zone == czone);
                assert(spec_zone_at(dsv, g, d.zone)@ == czone);
            },
            _ => {
                lemma_widget_next_id(children[idx], czone, g);
                assert(idh == g);
            },
        }
        lemma_widget_next_id(children[idx], czone, g);
        match children[idx] {
            WidgetView::Layout(sub) => {
                lemma_parts_next_id(
                    sub.direction,
                    sub.wx_align,
                    sub.wy_align,
                    sub.colour,
                    sub.borders,
                    sub.widgets,
                    czone,
                    g,
                    false,
                );
                assert(idh == g + slot_count(children[idx]));
            },
            _ => {
                assert(slot_count(children[idx]) == 0);
                assert(idh == g + slot_count(children[idx]));
            },
        }
        match children[idx] {
            WidgetView::Layout(sub) => {
                lemma_parts_groups(
                    sub.direction,
                    sub.wx_align,
                    sub.wy_align,
                    sub.colour,
                    sub.borders,
                    sub.widgets,
                    czone,
                    g,
                    false,
                );
            },
            w => {
                lemma_widget_groups(w, czone, g);
            },
        }
        assert(forall|j: int| 0 <= j < hd.len() ==> (#[trigger] hd[j]).group <= idh);
        assert(drawables_view(dsv) =~= (pre + hd) + tl + suf);
        assert(forall|j: int|
            0 <= j < (pre + hd).len() ==> (#[trigger] (pre + hd)[j]).group <= idh);
        lemma_rebind_level(children, sizes, ps, dsv, pre + hd, suf, idx + 1, idh);
        assert(rb == seq![
            crate::controllers::spec_rebind_widget(children[idx], dsv, g),
        ] + spec_rebind_children(children, dsv, g + 1 + slot_count(children[idx]), idx + 1));
        assert(rb.drop_first() =~= spec_rebind_children(children, dsv, idh + 1, idx + 1));
        assert(rebound_slot_correct(children[idx], czone, rb[0]));
    }
}

/// The browse pass matches the build pass: after a successful build,
/// rebinding the viewport's controllers from the built drawables binds
/// every controller, however deep, to exactly the zone the builder
/// computed for its slot.
pub proof fn lemma_browse_matches_build(v: Viewport, ds: Seq<Drawable>)
    requires
        v.spec_build() matches Ok(m) && drawables_view(ds) == m,
    ensures
        ({
            let l = v.layout@;
            let sizes = spec_sizes(l.direction, l.widgets, v.zone@.w, v.zone@.h);
            let ps = spec_positions(
                l.direction,
                l.wx_align,
                l.wy_align,
                v.zone@.x,
                v.zone@.y,
                sizes,
            )->Ok_0;
            rebound_correct(l.widgets, sizes, ps, spec_rebind_children(l.widgets, ds, 1, 0), 0)
        }),
{
    let l = v.layout@;
    let sizes = spec_sizes(l.direction, l.widgets, v.zone@.w, v.zone@.h);
    let ps = spec_positions(
        l.direction,
        l.wx_align,
        l.wy_align,
        v.zone@.x,
        v.zone@.y,
        sizes,
    )->Ok_0;
    let p = spec_build_layout(l, v.zone@, 0, false)->Ok_0;
    let run = spec_build_children(l.widgets, sizes, ps, 0, 0, false)->Ok_0;
    let own = p.0[0];
    assert(p.0 == seq![own] + run.0);
    assert(own.group == 0);
    assert(drawables_view(ds) =~= seq![own] + run.0 + Seq::<DrawableView>::empty());
    lemma_rebind_level(
        l.widgets,
        sizes,
        ps,
        ds,
        seq![own],
        Seq::empty(),
        0,
        0,
    );
}


/// Whether every alignment rule the builder evaluates below a layout
/// node is legal on its axis.  The builder evaluates a layout's rules
/// only when it has children, and walks: nested layouts, the child a
/// container wraps, and whatever a controller wraps except that a
/// controller-wrapped layout builds into its surface alone, so its
/// own rules are never evaluated.
pub open spec fn layout_aligns_valid(l: LayoutView) -> bool
    decreases rank_children(l.widgets, 0), 2int,
{
    &&& (l.widgets.len() == 0 || (l.wx_align.valid_x() && l.wy_align.valid_y()))
    &&& children_aligns_valid(l.widgets, 0)
}

/// Whether the alignments below the child slots from `idx` on are
/// legal.
pub open spec fn children_aligns_valid(s: Seq<WidgetView>, idx: int) -> bool
    decreases rank_children(s, idx), 0int,
    via children_aligns_valid_decreases
{
    idx < 0 || idx >= s.len() || {
        &&& match s[idx] {
            WidgetView::Layout(sub) => layout_aligns_valid(sub),
            w => widget_aligns_valid(w),
        }
        &&& children_aligns_valid(s, idx + 1)
    }
}

#[via_fn]
proof fn children_aligns_valid_decreases(s: Seq<WidgetView>, idx: int) {
    if 0 <= idx < s.len() {
        assert(rank_children(s, idx) == 2 + rank(s[idx]) + rank_children(s, idx + 1));
        if s[idx] is Layout {
            let sub = s[idx]->Layout_0;
            assert(rank(s[idx]) == 1 + rank_children(sub.widgets, 0));
        }
    }
}

/// Whether the alignments a non-layout slot's build evaluates are
/// legal.
pub open spec fn widget_aligns_valid(w: WidgetView) -> bool
    decreases rank(w), 2int,
    via widget_aligns_valid_decreases
{
    match w {
        WidgetView::Container(c) => match *c.widget {
            WidgetView::Layout(sub) => layout_aligns_valid(sub),
            w2 => widget_aligns_valid(w2),
        },
        WidgetView::Controller(d) => widget_aligns_valid(*d.widget),
        _ => true,
    }
}

#[via_fn]
proof fn widget_aligns_valid_decreases(w: WidgetView) {
    match w {
        WidgetView::Container(c) => {
            if *c.widget is Layout {
                let sub = (*c.widget)->Layout_0;
                assert(rank(*c.widget) == 1 + rank_children(sub.widgets, 0));
            }
        },
        _ => {},
    }
}

/// A layout build succeeds exactly when every alignment it evaluates
/// is legal on its axis.
proof fn lemma_parts_ok_iff(
    dir: Direction,
    wx: Align,
    wy: Align,
    colour: RGBA,
    borders: Option<Seq<Border>>,
    children: Seq<WidgetView>,
    zone: ZoneView,
    id: int,
    fb: bool,
)
    ensures
        spec_build_parts(dir, wx, wy, colour, borders, children, zone, id, fb) is Ok <==> {
            &&& (children.len() == 0 || (wx.valid_x() && wy.valid_y()))
            &&& children_aligns_valid(children, 0)
        },
    decreases rank_children(children, 0), 1int,
{
    let sizes = spec_sizes(dir, children, zone.w, zone.h);
    match spec_positions(dir, wx, wy, zone.x, zone.y, sizes) {
        Ok(ps) => {
            lemma_children_ok_iff(children, sizes, ps, 0, id, fb);
        },
        Err(_) => {},
    }
}

/// The child slots from `idx` on build successfully exactly when every
/// alignment they evaluate is legal.
proof fn lemma_children_ok_iff(
    children: Seq<WidgetView>,
    sizes: Seq<(int, int)>,
    ps: Seq<(int, int)>,
    idx: int,
    id: int,
    fb: bool,
)
    ensures
        spec_build_children(children, sizes, ps, idx, id, fb) is Ok <==> children_aligns_valid(
            children,
            idx,
        ),
    decreases rank_children(children, idx), 0int,
{
    if 0 <= idx < children.len() {
        assert(rank_children(children, idx) == 2 + rank(children[idx]) + rank_children(
            children,
            idx + 1,
        ));
        let id2 = if fb {
            id
        } else {
            id + 1
        };
        let zone = child_zone_of(sizes, ps, idx);
        let head = match children[idx] {
            WidgetView::Layout(sub) => spec_build_layout(sub, zone, id2, fb),
            w => spec_build_widget(w, zone, id2),
        };
        match children[idx] {
            WidgetView::Layout(sub) => {
                assert(rank(children[idx]) == 1 + rank_children(sub.widgets, 0));
                lemma_parts_ok_iff(
                    sub.direction,
                    sub.wx_align,
                    sub.wy_align,
                    sub.colour,
                    sub.borders,
                    sub.widgets,
                    zone,
                    id2,
                    fb,
                );
            },
            w => {
                lemma_widget_ok_iff(w, zone, id2);
            },
        }
        let slot_valid = match children[idx] {
            WidgetView::Layout(sub) => layout_aligns_valid(sub),
            w => widget_aligns_valid(w),
        };
        assert(head is Ok <==> slot_valid);
        match head {
            Ok((hd, idh)) => {
                lemma_children_ok_iff(children, sizes, ps, idx + 1, idh, fb);
                assert(spec_build_children(children, sizes, ps, idx + 1, idh, fb)
                    is Ok <==> children_aligns_valid(children, idx + 1));
                assert(spec_build_children(children, sizes, ps, idx, id, fb)
                    is Ok <==> (slot_valid && children_aligns_valid(children, idx + 1)));
            },
            Err(_) => {
                assert(!(spec_build_children(children, sizes, ps, idx, id, fb) is Ok));
                assert(!children_aligns_valid(children, idx));
            },
        }
    }
}

/// One non-layout slot builds successfully exactly when every
/// alignment its build expansion evaluates is legal.
proof fn lemma_widget_ok_iff(w: WidgetView, zone: ZoneView, id: int)
    ensures
        spec_build_widget(w, zone, id) is Ok <==> widget_aligns_valid(w),
    decreases rank(w), 2int,
{
    match w {
        WidgetView::Container(c) => {
            assert(rank_children(seq![*c.widget], 1) == 0);
            assert(rank_children(seq![*c.widget], 0) == 2 + rank(*c.widget));
            lemma_parts_ok_iff(
                Direction::Column,
                Align::Left,
                Align::Top,
                RGBA::transparent(),
                None,
                seq![*c.widget],
                zone,
                id,
                true,
            );
            assert(children_aligns_valid(seq![*c.widget], 1));
        },
        WidgetView::Button(b) => {
            assert(rank_children(seq![WidgetView::Label(b.label)], 1) == 0);
            assert(rank(WidgetView::Label(b.label)) == 0);
            assert(rank_children(seq![WidgetView::Label(b.label)], 0) == 2);
            lemma_parts_ok_iff(
                Direction::Column,
                Align::Center,
                Align::Center,
                b.colour,
                None,
                seq![WidgetView::Label(b.label)],
                zone,
                id,
                true,
            );
            assert(children_aligns_valid(seq![WidgetView::Label(b.label)], 1));
            assert(widget_aligns_valid(WidgetView::Label(b.label)));
        },
        WidgetView::Controller(d) => {
            lemma_widget_ok_iff(*d.widget, zone, id);
        },
        _ => {},
    }
}

/// When success is owed: a build of a viewport succeeds exactly when
/// every alignment rule it evaluates is legal on its axis, and it is
/// a configuration error otherwise.
pub proof fn lemma_build_succeeds_iff(v: Viewport)
    ensures
        v.spec_build() is Ok <==> layout_aligns_valid(v.layout@),
        v.spec_build() is Err ==> (v.spec_build()->Err_0 == LayoutError::InvalidAlignX
            || v.spec_build()->Err_0 == LayoutError::InvalidAlignY),
{
    let l = v.layout@;
    lemma_parts_ok_iff(
        l.direction,
        l.wx_align,
        l.wy_align,
        l.colour,
        l.borders,
        l.widgets,
        v.zone@,
        0,
        false,
    );
    if v.spec_build() is Err {
        let e = v.spec_build()->Err_0;
        match e {
            LayoutError::InvalidAlignX => {},
            LayoutError::InvalidAlignY => {},
        }
    }
}

} // verus!

//! The sizer: distributes a zone's space among a layout's children.
//!
//! Children fall in two groups.  A [`Container`](crate::Container) is
//! *fixed*: its own size is authoritative and never recomputed.  Every
//! other child is *flexible*: all flexible children of one layout share
//! one computed size.  Along the layout's direction the flexible
//! children split the space the fixed children leave over, clamped at
//! zero when the fixed children already exceed the zone; on the other
//! axis each flexible child takes the zone's full extent.

use vstd::prelude::*;
use crate::direction::Direction;
use crate::widgets::Layout;
use crate::widgets::Widget;
use crate::widgets::WidgetView;
use crate::widgets::lemma_widgets_view;
use crate::zone::Size;
use crate::zone::sizes_view;

verus! {

/// Sum of the widths of the fixed children among the first `k`.
pub open spec fn fixed_width(s: Seq<WidgetView>, k: int) -> int
    decreases k,
{
    if k <= 0 {
        0
    } else {
        fixed_width(s, k - 1) + match s[k - 1] {
            WidgetView::Container(c) => c.size.w as int,
            _ => 0,
        }
    }
}

/// Sum of the heights of the fixed children among the first `k`.
pub open spec fn fixed_height(s: Seq<WidgetView>, k: int) -> int
    decreases k,
{
    if k <= 0 {
        0
    } else {
        fixed_height(s, k - 1) + match s[k - 1] {
            WidgetView::Container(c) => c.size.h as int,
            _ => 0,
        }
    }
}

/// How many of the first `k` children are flexible.
pub open spec fn flex_count(s: Seq<WidgetView>, k: int) -> int
    decreases k,
{
    if k <= 0 {
        0
    } else {
        flex_count(s, k - 1) + if s[k - 1] is Container {
            0int
        } else {
            1int
        }
    }
}

/// The fixed sums and the flexible count grow with the index.
pub proof fn lemma_sizer_sums_mono(s: Seq<WidgetView>, k1: int, k2: int)
    requires
        k1 <= k2,
    ensures
        fixed_width(s, k1) <= fixed_width(s, k2),
        fixed_height(s, k1) <= fixed_height(s, k2),
        flex_count(s, k1) <= flex_count(s, k2),
        0 <= flex_count(s, k2) - flex_count(s, k1) <= k2 - k1,
    decreases k2 - k1,
{
    if k1 < k2 {
        lemma_sizer_sums_mono(s, k1, k2 - 1);
    }
}

/// The space one flexible child gets: what the fixed children leave of
/// the zone along the direction axis, clamped at zero and divided among
/// the flexible children, and the zone's full extent on the other axis.
pub open spec fn spec_flex_size(dir: Direction, s: Seq<WidgetView>, zw: int, zh: int) -> (
    int,
    int,
) {
    let n = s.len() as int;
    let k = flex_count(s, n);
    match dir {
        Direction::Column => (shared_extent(zw, fixed_width(s, n), k), zh),
        Direction::Row => (zw, shared_extent(zh, fixed_height(s, n), k)),
    }
}

/// The space left by fixed children, split `k` ways: zero when they
/// already exceed the available extent.
pub open spec fn shared_extent(avail: int, fixed: int, k: int) -> int {
    if fixed > avail {
        0
    } else {
        (avail - fixed) / k
    }
}

/// The size of child `i` inside a zone of `zw` by `zh`: its own size
/// for a fixed child, the shared flexible size otherwise.
pub open spec fn spec_child_size(dir: Direction, s: Seq<WidgetView>, zw: int, zh: int, i: int) -> (
    int,
    int,
) {
    match s[i] {
        WidgetView::Container(c) => (c.size.w as int, c.size.h as int),
        _ => spec_flex_size(dir, s, zw, zh),
    }
}

/// What the sizer returns for a layout's children in a zone of `zw` by
/// `zh`: nothing for an empty layout, otherwise the zone's own size
/// followed by one size per child, in their stored order.
pub open spec fn spec_sizes(dir: Direction, s: Seq<WidgetView>, zw: int, zh: int) -> Seq<
    (int, int),
> {
    if s.len() == 0 {
        Seq::empty()
    } else {
        seq![(zw, zh)] + Seq::new(s.len(), |i: int| spec_child_size(dir, s, zw, zh, i))
    }
}

/// Machine bound the sizer needs: the summed extents of the fixed
/// children stay within the unsigned machine word.
pub open spec fn sizer_fits(s: Seq<WidgetView>) -> bool {
    &&& fixed_width(s, s.len() as int) <= usize::MAX
    &&& fixed_height(s, s.len() as int) <= usize::MAX
}

/// Computes the size of every widget of one layout, in order.
///
/// Does not size the widgets inside the layout's widgets.
pub struct Sizer<'a> {
    /// The layout whose children are sized.
    pub layout: &'a Layout,
}

impl<'a> Sizer<'a> {
    /// Creates a new sizer for a layout.
    pub fn new(layout: &'a Layout) -> (s: Self)
        ensures
            s.layout == layout,
    {
        Sizer { layout }
    }

    /// Gets the size of each widget in the correct order, inside a
    /// sized zone.
    ///
    /// For a layout with children the first returned size is the
    /// layout's own, which is the zone's; an empty layout yields an
    /// empty vector.
    pub fn size_in(&self, zone: Size) -> (res: Vec<Size>)
        requires
            sizer_fits(self.layout@.widgets),
        ensures
            sizes_view(res@) == spec_sizes(
                self.layout.direction,
                self.layout@.widgets,
                zone.w as int,
                zone.h as int,
            ),
    {
        let ghost gs = self.layout@.widgets;
        proof {
            lemma_widgets_view(self.layout.widgets@);
        }
        let n = self.layout.widgets.len();
        if n == 0 {
            let res: Vec<Size> = Vec::new();
            proof {
                assert(sizes_view(res@) =~= spec_sizes(
                    self.layout.direction,
                    gs,
                    zone.w as int,
                    zone.h as int,
                ));
            }
            return res;
        }
        let mut fixed_w: usize = 0;
        let mut fixed_h: usize = 0;
        let mut flex: usize = 0;
        for k in 0..n
            invariant
                n == self.layout.widgets@.len(),
                n == gs.len(),
                gs == self.layout@.widgets,
                sizer_fits(gs),
                fixed_w == fixed_width(gs, k as int),
                fixed_h == fixed_height(gs, k as int),
                flex == flex_count(gs, k as int),
        {
            proof {
                lemma_widgets_view(self.layout.widgets@);
                lemma_sizer_sums_mono(gs, 0, k as int);
                lemma_sizer_sums_mono(gs, k + 1, n as int);
            }
            match &self.layout.widgets[k] {
                Widget::Container(c) => {
                    fixed_w += c.size.w;
                    fixed_h += c.size.h;
                },
                _ => {
                    flex += 1;
                },
            }
        }
        let flexible: Size = if flex > 0 {
            match self.layout.direction {
                Direction::Column => Size {
                    w: if fixed_w > zone.w {
                        0
                    } else {
                        (zone.w - fixed_w) / flex
                    },
                    h: zone.h,
                },
                Direction::Row => Size {
                    w: zone.w,
                    h: if fixed_h > zone.h {
                        0
                    } else {
                        (zone.h - fixed_h) / flex
                    },
                },
            }
        } else {
            Size { w: 0, h: 0 }
        };
        let ghost model = spec_sizes(self.layout.direction, gs, zone.w as int, zone.h as int);
        let mut res: Vec<Size> = Vec::new();
        res.push(zone);
        for k in 0..n
            invariant
                n == self.layout.widgets@.len(),
                n == gs.len(),
                gs == self.layout@.widgets,
                model == spec_sizes(self.layout.direction, gs, zone.w as int, zone.h as int),
                model.len() == n + 1,
                flex == flex_count(gs, n as int),
                flex > 0 ==> flexible@ == spec_flex_size(
                    self.layout.direction,
                    gs,
                    zone.w as int,
                    zone.h as int,
                ),
                res@.len() == k + 1,
                res@[0]@ == model[0],
                forall|i: int| 1 <= i <= k ==> #[trigger] res@[i]@ == model[i],
        {
            proof {
                lemma_widgets_view(self.layout.widgets@);
                if !(gs[k as int] is Container) {
                    lemma_sizer_sums_mono(gs, 0, k as int);
                    lemma_sizer_sums_mono(gs, k + 1, n as int);
                    assert(flex_count(gs, k + 1) >= 1);
                }
            }
            match &self.layout.widgets[k] {
                Widget::Container(c) => {
                    res.push(c.size);
                },
                _ => {
                    res.push(flexible);
                },
            }
        }
        proof {
            assert(sizes_view(res@) =~= model);
        }
        res
    }
}

} // verus!

//! The aligner: positions a layout's children inside a zone, honouring
//! the layout's alignment rules.
//!
//! Children stack along the layout's *main* axis (the axis matching its
//! direction: horizontal for `Column`, vertical for `Row`) in their
//! stored order.  On the main axis, start alignment places the stack at
//! the zone's start, end alignment at its end, and centering reserves
//! equal leftover space on both ends.  On the *cross* axis each child
//! is placed independently from its own extent.
//!
//! An alignment outside its axis' legal subset (for instance `Top` on
//! the horizontal axis) is a configuration error: no positions are
//! produced and the error is handed to the caller.

use vstd::prelude::*;
use crate::align::Align;
use crate::direction::Direction;
use crate::error::LayoutError;
use crate::widgets::Layout;
use crate::zone::Point;
use crate::zone::Size;
use crate::zone::in_isize;
use crate::zone::points_view;
use crate::zone::sizes_view;

verus! {

/// Sum of the widths of the first `k` child sizes.
pub open spec fn sum_w(cs: Seq<(int, int)>, k: int) -> int
    decreases k,
{
    if k <= 0 {
        0
    } else {
        sum_w(cs, k - 1) + cs[k - 1].0
    }
}

/// Sum of the heights of the first `k` child sizes.
pub open spec fn sum_h(cs: Seq<(int, int)>, k: int) -> int
    decreases k,
{
    if k <= 0 {
        0
    } else {
        sum_h(cs, k - 1) + cs[k - 1].1
    }
}

/// With sizes that are never negative, the partial sums grow with the
/// index.
pub proof fn lemma_sums_mono(cs: Seq<(int, int)>, k1: int, k2: int)
    requires
        0 <= k1 <= k2 <= cs.len(),
        forall|i: int| 0 <= i < cs.len() ==> (#[trigger] cs[i]).0 >= 0 && cs[i].1 >= 0,
    ensures
        sum_w(cs, k1) <= sum_w(cs, k2),
        sum_h(cs, k1) <= sum_h(cs, k2),
    decreases k2 - k1,
{
    if k1 < k2 {
        lemma_sums_mono(cs, k1, k2 - 1);
    }
}

/// Half of `a - b`, rounded towards zero.
pub open spec fn half_diff(a: int, b: int) -> int {
    if a >= b {
        (a - b) / 2
    } else {
        -((b - a) / 2)
    }
}

/// Offset of a child on the main axis, from the stack of extents
/// already placed before it (`pre`) and the stack of all extents
/// (`total`), inside a parent extent.
///
/// Start alignments place the child after what is already placed;
/// centering reserves half the leftover on each end and stacks inside
/// that band; end alignments place it so that the rest of the stack
/// exactly fills the parent's end.
pub open spec fn main_off(a: Align, parent: int, pre: int, total: int) -> int {
    if a == Align::Left || a == Align::Top {
        pre
    } else if a == Align::Center {
        half_diff(parent, total) + pre
    } else {
        parent - (total - pre)
    }
}

/// Offset of a child on the cross axis, from its own extent alone.
pub open spec fn cross_off(a: Align, parent: int, ext: int) -> int {
    if a == Align::Left || a == Align::Top {
        0
    } else if a == Align::Center {
        half_diff(parent, ext)
    } else {
        parent - ext
    }
}

/// The position of child `i` (starting at zero) among children of
/// sizes `cs`, inside a zone of `zw` by `zh` anchored at `(ax, ay)`.
pub open spec fn spec_child_position(
    dir: Direction,
    wx: Align,
    wy: Align,
    ax: int,
    ay: int,
    zw: int,
    zh: int,
    cs: Seq<(int, int)>,
    i: int,
) -> (int, int) {
    let n = cs.len() as int;
    match dir {
        Direction::Column => (
            ax + main_off(wx, zw, sum_w(cs, i), sum_w(cs, n)),
            ay + cross_off(wy, zh, cs[i].1),
        ),
        Direction::Row => (
            ax + cross_off(wx, zw, cs[i].0),
            ay + main_off(wy, zh, sum_h(cs, i), sum_h(cs, n)),
        ),
    }
}

/// What the aligner returns for sizes `sizes` (the zone's own size
/// first, then one size per child) anchored at `(ax, ay)`: nothing for
/// an empty input, a configuration error when there are children and
/// an alignment is outside its axis' legal subset, and otherwise the
/// anchor followed by one position per child, in their stored order.
pub open spec fn spec_positions(
    dir: Direction,
    wx: Align,
    wy: Align,
    ax: int,
    ay: int,
    sizes: Seq<(int, int)>,
) -> Result<Seq<(int, int)>, LayoutError> {
    if sizes.len() == 0 {
        Ok(Seq::empty())
    } else if sizes.len() >= 2 && !wx.valid_x() {
        Err(LayoutError::InvalidAlignX)
    } else if sizes.len() >= 2 && !wy.valid_y() {
        Err(LayoutError::InvalidAlignY)
    } else {
        let zw = sizes[0].0;
        let zh = sizes[0].1;
        let cs = sizes.subrange(1, sizes.len() as int);
        Ok(
            seq![(ax, ay)] + Seq::new(
                cs.len(),
                |i: int| spec_child_position(dir, wx, wy, ax, ay, zw, zh, cs, i),
            ),
        )
    }
}

/// Machine bounds the aligner needs whenever it computes positions:
/// the zone's extents and the summed child extents stay within the
/// signed machine word, and every computed coordinate does too.
pub open spec fn positions_fit(
    dir: Direction,
    wx: Align,
    wy: Align,
    ax: int,
    ay: int,
    sizes: Seq<(int, int)>,
) -> bool {
    match spec_positions(dir, wx, wy, ax, ay, sizes) {
        Ok(ps) => sizes.len() <= 1 || {
            let cs = sizes.subrange(1, sizes.len() as int);
            &&& sizes[0].0 <= isize::MAX
            &&& sizes[0].1 <= isize::MAX
            &&& sum_w(cs, cs.len() as int) <= isize::MAX
            &&& sum_h(cs, cs.len() as int) <= isize::MAX
            &&& forall|i: int|
                1 <= i < ps.len() ==> in_isize((#[trigger] ps[i]).0) && in_isize(ps[i].1)
        },
        Err(_) => true,
    }
}

/// Offset on the main axis, executable form.
fn exec_main_off(a: Align, parent: usize, pre: usize, total: usize) -> (off: isize)
    requires
        parent <= isize::MAX,
        total <= isize::MAX,
        pre <= total,
    ensures
        off == main_off(a, parent as int, pre as int, total as int),
{
    match a {
        Align::Left | Align::Top => pre as isize,
        Align::Center => {
            let space: isize = if parent >= total {
                ((parent - total) / 2) as isize
            } else {
                -(((total - parent) / 2) as isize)
            };
            proof {
                assert(space == half_diff(parent as int, total as int));
                if parent >= total {
                    assert((parent - total) / 2 <= parent - total);
                }
            }
            space + pre as isize
        },
        _ => parent as isize - (total - pre) as isize,
    }
}

/// Offset on the cross axis, executable form.
fn exec_cross_off(a: Align, parent: usize, ext: usize) -> (off: isize)
    requires
        parent <= isize::MAX,
        ext <= isize::MAX,
    ensures
        off == cross_off(a, parent as int, ext as int),
{
    match a {
        Align::Left | Align::Top => 0,
        Align::Center => {
            if parent >= ext {
                ((parent - ext) / 2) as isize
            } else {
                -(((ext - parent) / 2) as isize)
            }
        },
        _ => parent as isize - ext as isize,
    }
}

/// Computes the position of every widget of one layout, in order.
///
/// Does not position the widgets inside the layout's widgets.
#[derive(Debug)]
pub struct Aligner<'a> {
    /// The layout whose rules the alignment follows.
    pub layout: &'a Layout,
    /// The sizes of the layout and of each child, from the sizer.
    pub sizes: Vec<Size>,
}

impl<'a> Aligner<'a> {
    /// Creates a new aligner following the rules of a layout.
    ///
    /// The `sizes` parameter is the sizes of every widget calculated by
    /// the [`Sizer`](crate::Sizer), the layout's own size first.
    pub fn new(layout: &'a Layout, sizes: Vec<Size>) -> (a: Self)
        ensures
            a.layout == layout,
            a.sizes == sizes,
    {
        Aligner { layout, sizes }
    }

    /// Gets the position of each widget in the correct order, anchored
    /// at a positioned zone.
    ///
    /// For a non-empty input the first returned position is the
    /// layout's own, which is the anchor; an empty input yields an
    /// empty vector.  An alignment outside its axis' legal subset is a
    /// configuration error when there is at least one child to place.
    pub fn align_at(&self, zone: Point) -> (res: Result<Vec<Point>, LayoutError>)
        requires
            positions_fit(
                self.layout.direction,
                self.layout.wx_align,
                self.layout.wy_align,
                zone.x as int,
                zone.y as int,
                sizes_view(self.sizes@),
            ),
        ensures
            match res {
                Ok(ps) => spec_positions(
                    self.layout.direction,
                    self.layout.wx_align,
                    self.layout.wy_align,
                    zone.x as int,
                    zone.y as int,
                    sizes_view(self.sizes@),
                ) == Ok::<Seq<(int, int)>, LayoutError>(points_view(ps@)),
                Err(e) => spec_positions(
                    self.layout.direction,
                    self.layout.wx_align,
                    self.layout.wy_align,
                    zone.x as int,
                    zone.y as int,
                    sizes_view(self.sizes@),
                ) == Err::<Seq<(int, int)>, LayoutError>(e),
            },
    {
        let ghost gsizes = sizes_view(self.sizes@);
        let ghost model = spec_positions(
            self.layout.direction,
            self.layout.wx_align,
            self.layout.wy_align,
            zone.x as int,
            zone.y as int,
            gsizes,
        );
        let n = self.sizes.len();
        if n == 0 {
            let res: Vec<Point> = Vec::new();
            proof {
                assert(points_view(res@) =~= Seq::<(int, int)>::empty());
            }
            return Ok(res);
        }
        if n >= 2 {
            match self.layout.wx_align {
                Align::Left | Align::Center | Align::Right => {},
                _ => {
                    return Err(LayoutError::InvalidAlignX);
                },
            }
            match self.layout.wy_align {
                Align::Top | Align::Center | Align::Bottom => {},
                _ => {
                    return Err(LayoutError::InvalidAlignY);
                },
            }
        }
        let ghost m = model->Ok_0;
        let ghost cs = gsizes.subrange(1, gsizes.len() as int);
        let zw = self.sizes[0].w;
        let zh = self.sizes[0].h;
        let mut total_w: usize = 0;
        let mut total_h: usize = 0;
        for k in 1..n
            invariant
                n == self.sizes@.len(),
                n >= 1,
                gsizes == sizes_view(self.sizes@),
                cs == gsizes.subrange(1, gsizes.len() as int),
                n >= 2 ==> sum_w(cs, cs.len() as int) <= isize::MAX && sum_h(
                    cs,
                    cs.len() as int,
                ) <= isize::MAX,
                total_w == sum_w(cs, k - 1),
                total_h == sum_h(cs, k - 1),
        {
            proof {
                lemma_sums_mono(cs, k as int, cs.len() as int);
            }
            total_w += self.sizes[k].w;
            total_h += self.sizes[k].h;
        }
        let mut res: Vec<Point> = Vec::new();
        res.push(zone);
        let mut pre_w: usize = 0;
        let mut pre_h: usize = 0;
        for k in 1..n
            invariant
                n == self.sizes@.len(),
                n >= 1,
                gsizes == sizes_view(self.sizes@),
                cs == gsizes.subrange(1, gsizes.len() as int),
                model == spec_positions(
                    self.layout.direction,
                    self.layout.wx_align,
                    self.layout.wy_align,
                    zone.x as int,
                    zone.y as int,
                    gsizes,
                ),
                model is Ok,
                m == model->Ok_0,
                m.len() == n,
                positions_fit(
                    self.layout.direction,
                    self.layout.wx_align,
                    self.layout.wy_align,
                    zone.x as int,
                    zone.y as int,
                    gsizes,
                ),
                zw == self.sizes@[0].w,
                zh == self.sizes@[0].h,
                n >= 2 ==> zw <= isize::MAX && zh <= isize::MAX,
                total_w == sum_w(cs, cs.len() as int),
                total_h == sum_h(cs, cs.len() as int),
                n >= 2 ==> total_w <= isize::MAX && total_h <= isize::MAX,
                pre_w == sum_w(cs, k - 1),
                pre_h == sum_h(cs, k - 1),
                res@.len() == k,
                res@[0]@ == (zone.x as int, zone.y as int),
                forall|i: int| 1 <= i < k ==> #[trigger] res@[i]@ == m[i],
        {
            let cw = self.sizes[k].w;
            let ch = self.sizes[k].h;
            proof {
                assert(cs[k - 1] == (cw as int, ch as int));
                lemma_sums_mono(cs, 0, k - 1);
                lemma_sums_mono(cs, k as int, cs.len() as int);
                assert(sum_w(cs, k as int) == pre_w + cw);
                assert(sum_h(cs, k as int) == pre_h + ch);
            }
            let (x_off, y_off): (isize, isize) = match self.layout.direction {
                Direction::Column => (
                    exec_main_off(self.layout.wx_align, zw, pre_w, total_w),
                    exec_cross_off(self.layout.wy_align, zh, ch),
                ),
                Direction::Row => (
                    exec_cross_off(self.layout.wx_align, zw, cw),
                    exec_main_off(self.layout.wy_align, zh, pre_h, total_h),
                ),
            };
            proof {
                assert(m[k as int] == spec_child_position(
                    self.layout.direction,
                    self.layout.wx_align,
                    self.layout.wy_align,
                    zone.x as int,
                    zone.y as int,
                    zw as int,
                    zh as int,
                    cs,
                    k - 1,
                ));
                assert(m[k as int] == (zone.x + x_off as int, zone.y + y_off as int));
                assert(in_isize(m[k as int].0) && in_isize(m[k as int].1));
            }
            let x = zone.x + x_off;
            let y = zone.y + y_off;
            res.push(Point { x, y });
            pre_w += cw;
            pre_h += ch;
        }
        proof {
            assert(points_view(res@) =~= m);
        }
        Ok(res)
    }
}

} // verus!

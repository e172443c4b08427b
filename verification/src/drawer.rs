//! The drawable tree: the materialised, stateful counterpart of a view
//! tree.
//!
//! A drawer owns its current pixel bounds, its style, for containers
//! the list of child drawers, and for leaves one GPU-resident vertex
//! object holding the background rectangle. Layout
//! ([`Drawer::set_bounds`]) resolves the sizing language against the
//! assigned rectangle and recurses; drawing ([`Drawer::draw`]) records
//! the backend calls of one frame and never changes the tree; event
//! processing ([`Drawer::process`]) turns raw input into an optional
//! application message; teardown ([`Drawer::delete`]) releases every
//! GPU object of the subtree exactly once.

use crate::event::{Action, Event, MouseButton};
use crate::graphics::vertices::PointArray;
use crate::graphics::{Context, DrawCommand, DrawMode, Shape};
use crate::math::{bounds_contain, Bounds, Point};
use crate::view::style::{border_cmds_at, border_draw_ok, style_cmds_at, style_draw_ok, Style};
use crate::view::util::{
    resolved_pixels, shrink_ok, spec_shrink, total_portions, Length, Orientation,
};
use vstd::prelude::*;

verus! {

broadcast use vstd::set::group_set_axioms;

/// A drawable tree node: a container laying out children along its
/// orientation, or a leaf owning one background vertex object.
pub enum Drawer<M> {
    Common(CommonDrawer<M>),
    Leaf(LeafDrawer<M>),
}

/// A container node: draws its own style, then its children in
/// insertion order, back to front.
pub struct CommonDrawer<M> {
    pub bounds: Bounds,
    pub style: Style,
    pub orientation: Orientation,
    pub children: Vec<Drawer<M>>,
}

/// A leaf node: draws its background through a retained vertex object
/// that layout re-uploads, and can answer a click inside its bounds
/// with a message.
pub struct LeafDrawer<M> {
    pub bounds: Bounds,
    pub style: Style,
    pub on_click: Option<M>,
    pub cursor: Point,
    pub object: PointArray,
}

impl<M> Drawer<M> {
    /// The node's style.
    pub open spec fn spec_style(self) -> Style {
        match self {
            Drawer::Common(c) => c.style,
            Drawer::Leaf(l) => l.style,
        }
    }

    /// The node's assigned rectangle.
    pub open spec fn spec_bounds(self) -> Bounds {
        match self {
            Drawer::Common(c) => c.bounds,
            Drawer::Leaf(l) => l.bounds,
        }
    }

    /// The node's width request, read by its parent.
    pub open spec fn spec_width(self) -> Length {
        self.spec_style().width
    }

    /// The node's height request, read by its parent.
    pub open spec fn spec_height(self) -> Length {
        self.spec_style().height
    }

    pub fn width(&self) -> (r: Length)
        ensures
            r == self.spec_width(),
    {
        match self {
            Drawer::Common(c) => c.style.width,
            Drawer::Leaf(l) => l.style.width,
        }
    }

    pub fn height(&self) -> (r: Length)
        ensures
            r == self.spec_height(),
    {
        match self {
            Drawer::Common(c) => c.style.height,
            Drawer::Leaf(l) => l.style.height,
        }
    }
}

/// What processing one event does to a node, and what it answers.
/// Containers consume nothing and answer nothing — events are not
/// routed into children. A leaf tracks the cursor position, and
/// answers its click message when the left button is pressed while the
/// cursor is inside its bounds.
pub open spec fn spec_process<M>(d: Drawer<M>, e: Event) -> (Drawer<M>, Option<M>) {
    match d {
        Drawer::Common(_) => (d, Option::None),
        Drawer::Leaf(l) => match e {
            Event::CursorPos(x, y) => (
                Drawer::Leaf(LeafDrawer { cursor: Point { x, y }, ..l }),
                Option::None,
            ),
            Event::MouseButton(MouseButton::Left, Action::Press) => if bounds_contain(
                l.bounds,
                l.cursor,
            ) {
                (d, l.on_click)
            } else {
                (d, Option::None)
            },
            _ => (d, Option::None),
        },
    }
}

impl<M: Copy> Drawer<M> {
    /// Consume one input event; the node's bounds never change, so a
    /// draw after processing still reflects the last layout.
    pub fn process(&mut self, event: Event) -> (r: Option<M>)
        ensures
            (*final(self), r) == spec_process(*old(self), event),
            final(self).spec_bounds() == old(self).spec_bounds(),
    {
        match self {
            Drawer::Common(_) => None,
            Drawer::Leaf(l) => match event {
                Event::CursorPos(x, y) => {
                    l.cursor = Point::new(x, y);
                    None
                },
                Event::MouseButton(MouseButton::Left, Action::Press) => {
                    if l.bounds.contains(l.cursor) {
                        l.on_click
                    } else {
                        None
                    }
                },
                _ => None,
            },
        }
    }
}

/// The request a child consumes along the stacking axis of `o`.
pub open spec fn stack_request<M>(d: Drawer<M>, o: Orientation) -> Length {
    match o {
        Orientation::Vertical => d.spec_height(),
        Orientation::Horizontal => d.spec_width(),
    }
}

/// The stacking-axis requests of a row of children, whose weights the
/// container sums once over all children.
pub open spec fn child_lengths<M>(s: Seq<Drawer<M>>, o: Orientation) -> Seq<Length> {
    s.map_values(|d: Drawer<M>| stack_request(d, o))
}

/// The width of the content rectangle.
pub open spec fn inner_w(inner: Bounds) -> int {
    inner.max.x - inner.min.x
}

/// The height of the content rectangle.
pub open spec fn inner_h(inner: Bounds) -> int {
    inner.max.y - inner.min.y
}

/// The running offset along the stacking axis before child `i`: the
/// sum of the resolved stacking extents of its earlier siblings.
pub open spec fn stack_offset<M>(
    s: Seq<Drawer<M>>,
    o: Orientation,
    inner: Bounds,
    total: int,
    i: int,
) -> int
    decreases i,
{
    if i <= 0 {
        0
    } else {
        stack_offset(s, o, inner, total, i - 1) + match o {
            Orientation::Vertical => resolved_pixels(s[i - 1].spec_height(), inner_h(inner), total),
            Orientation::Horizontal => resolved_pixels(
                s[i - 1].spec_width(),
                inner_w(inner),
                total,
            ),
        }
    }
}

/// The rectangle the container allocates to child `i`: anchored at the
/// running offset along the stacking axis, with the child's requests
/// resolved against the parent's content extents — the stacking extent
/// against the shared portion sum, the cross extent against a portion
/// sum of one, so a weighted cross request receives the full parent
/// extent.
pub open spec fn spec_child_alloc<M>(
    s: Seq<Drawer<M>>,
    o: Orientation,
    inner: Bounds,
    total: int,
    i: int,
) -> Bounds {
    let off = stack_offset(s, o, inner, total, i);
    match o {
        Orientation::Vertical => {
            let w = resolved_pixels(s[i].spec_width(), inner_w(inner), 1);
            let h = resolved_pixels(s[i].spec_height(), inner_h(inner), total);
            Bounds {
                min: Point { x: inner.min.x, y: (inner.min.y + off) as i32 },
                max: Point {
                    x: (inner.min.x + w) as i32,
                    y: (inner.min.y + off + h) as i32,
                },
            }
        },
        Orientation::Horizontal => {
            let w = resolved_pixels(s[i].spec_width(), inner_w(inner), total);
            let h = resolved_pixels(s[i].spec_height(), inner_h(inner), 1);
            Bounds {
                min: Point { x: (inner.min.x + off) as i32, y: inner.min.y },
                max: Point {
                    x: (inner.min.x + off + w) as i32,
                    y: (inner.min.y + h) as i32,
                },
            }
        },
    }
}

/// Whether the allocation of child `i` stays within `i32` coordinates
/// and never divides by a zero portion sum.
pub open spec fn child_alloc_ok<M>(
    s: Seq<Drawer<M>>,
    o: Orientation,
    inner: Bounds,
    total: int,
    i: int,
) -> bool {
    let off = stack_offset(s, o, inner, total, i);
    match o {
        Orientation::Vertical => {
            let w = resolved_pixels(s[i].spec_width(), inner_w(inner), 1);
            let h = resolved_pixels(s[i].spec_height(), inner_h(inner), total);
            &&& (!(s[i].spec_height() is Pixels) ==> total > 0)
            &&& w <= i32::MAX
            &&& h <= i32::MAX
            &&& inner.min.x + w <= i32::MAX
            &&& i32::MIN <= inner.min.y + off <= i32::MAX
            &&& i32::MIN <= inner.min.y + off + h <= i32::MAX
        },
        Orientation::Horizontal => {
            let w = resolved_pixels(s[i].spec_width(), inner_w(inner), total);
            let h = resolved_pixels(s[i].spec_height(), inner_h(inner), 1);
            &&& (!(s[i].spec_width() is Pixels) ==> total > 0)
            &&& w <= i32::MAX
            &&& h <= i32::MAX
            &&& inner.min.y + h <= i32::MAX
            &&& i32::MIN <= inner.min.x + off <= i32::MAX
            &&& i32::MIN <= inner.min.x + off + w <= i32::MAX
        },
    }
}

/// Whether laying out the children of a container from index `i` on is
/// free of division by zero and of coordinate overflow, child subtrees
/// included.
pub open spec fn forest_layout_ok<M>(
    s: Seq<Drawer<M>>,
    o: Orientation,
    inner: Bounds,
    total: int,
    i: int,
) -> bool
    decreases s, s.len() - i,
{
    if i < 0 || i >= s.len() {
        true
    } else {
        &&& child_alloc_ok(s, o, inner, total, i)
        &&& spec_layout_ok(s[i], spec_child_alloc(s, o, inner, total, i))
        &&& forest_layout_ok(s, o, inner, total, i + 1)
    }
}

/// Whether assigning the rectangle `b` to the tree `d` is free of
/// division by zero and of coordinate overflow everywhere.
pub open spec fn spec_layout_ok<M>(d: Drawer<M>, b: Bounds) -> bool
    decreases d,
{
    match d {
        Drawer::Leaf(l) => shrink_ok(l.style.margin, b),
        Drawer::Common(c) => {
            let nb = spec_shrink(c.style.margin, b);
            let inner = spec_shrink(c.style.padding, nb);
            let total = total_portions(child_lengths(c.children@, c.orientation));
            &&& shrink_ok(c.style.margin, b)
            &&& shrink_ok(c.style.padding, nb)
            &&& 0 <= inner_w(inner) <= i32::MAX
            &&& 0 <= inner_h(inner) <= i32::MAX
            &&& total <= u32::MAX
            &&& forest_layout_ok(c.children@, c.orientation, inner, total, 0)
        },
    }
}

/// How assigning the rectangle `b` rewrites a tree: the node keeps its
/// style and identity, its bounds become `b` shrunk by its margin, a
/// leaf re-uploads its four background corners, and a container places
/// each child at the rectangle [`spec_child_alloc`] gives it.
pub open spec fn spec_laid_out<M>(od: Drawer<M>, nd: Drawer<M>, b: Bounds) -> bool
    decreases od,
{
    match (od, nd) {
        (Drawer::Leaf(o), Drawer::Leaf(n)) => {
            &&& n.style == o.style
            &&& n.on_click == o.on_click
            &&& n.cursor == o.cursor
            &&& n.bounds == spec_shrink(o.style.margin, b)
            &&& n.object.handle == o.object.handle
            &&& n.object.count == 4
        },
        (Drawer::Common(o), Drawer::Common(n)) => {
            let nb = spec_shrink(o.style.margin, b);
            let inner = spec_shrink(o.style.padding, nb);
            let total = total_portions(child_lengths(o.children@, o.orientation));
            &&& n.style == o.style
            &&& n.orientation == o.orientation
            &&& n.bounds == nb
            &&& n.children@.len() == o.children@.len()
            &&& forall|i: int|
                0 <= i < o.children@.len() ==> spec_laid_out(
                    #[trigger] o.children@[i],
                    n.children@[i],
                    spec_child_alloc(o.children@, o.orientation, inner, total, i),
                )
        },
        _ => false,
    }
}

/// From a failing child onward, the forest cannot be laid out.
proof fn lemma_forest_layout_not_ok<M>(
    s: Seq<Drawer<M>>,
    o: Orientation,
    inner: Bounds,
    total: int,
    i: int,
    k: int,
)
    requires
        0 <= i <= k < s.len(),
        !(child_alloc_ok(s, o, inner, total, k) && spec_layout_ok(
            s[k],
            spec_child_alloc(s, o, inner, total, k),
        )),
    ensures
        !forest_layout_ok(s, o, inner, total, i),
    decreases k - i,
{
    if i < k {
        lemma_forest_layout_not_ok(s, o, inner, total, i + 1, k);
    }
}

impl<M: Copy> Drawer<M> {
    /// Whether assigning `bounds` to this tree is free of division by
    /// zero and of coordinate overflow; [`Drawer::set_bounds`] lays out
    /// exactly when this holds.
    #[verifier::loop_isolation(false)]
    #[verifier::rlimit(100)]
    pub fn layout_fits(&self, bounds: Bounds) -> (r: bool)
        ensures
            r == spec_layout_ok(*self, bounds),
        decreases *self,
    {
        match self {
            Drawer::Leaf(l) => l.style.margin.shrink_fits(bounds),
            Drawer::Common(c) => {
                if !c.style.margin.shrink_fits(bounds) {
                    return false;
                }
                let nb = c.style.margin.shrink(bounds);
                if !c.style.padding.shrink_fits(nb) {
                    return false;
                }
                let inner = c.style.padding.shrink(nb);
                let iw = (inner.max.x as i64) - (inner.min.x as i64);
                let ih = (inner.max.y as i64) - (inner.min.y as i64);
                if iw < 0 || ih < 0 || iw > (i32::MAX as i64) || ih > (i32::MAX as i64) {
                    return false;
                }
                let ghost lens = child_lengths(c.children@, c.orientation);
                let mut total64: u64 = 0;
                let mut j: usize = 0;
                proof {
                    assert(lens.subrange(0, 0) =~= Seq::<Length>::empty());
                }
                while j < c.children.len()
                    invariant
                        0 <= j <= c.children@.len(),
                        total64 == total_portions(lens.subrange(0, j as int)),
                        total64 <= u32::MAX,
                    decreases c.children@.len() - j,
                {
                    let child = &c.children[j];
                    let request = match c.orientation {
                        Orientation::Vertical => child.height(),
                        Orientation::Horizontal => child.width(),
                    };
                    let weight: u32 = match request {
                        Length::Fill => 1,
                        Length::FillPortion(portion) => portion,
                        Length::Pixels(_) => 0,
                    };
                    proof {
                        assert(lens[j as int] == stack_request(c.children@[j as int], c.orientation));
                        crate::view::util::lemma_total_portions_step(lens, j as int);
                    }
                    let next = total64 + (weight as u64);
                    if next > (u32::MAX as u64) {
                        proof {
                            crate::view::util::lemma_total_portions_prefix_le(lens, j as int + 1);
                            assert(!spec_layout_ok(*self, bounds));
                        }
                        return false;
                    }
                    total64 = next;
                    j = j + 1;
                }
                proof {
                    assert(lens.subrange(0, lens.len() as int) =~= lens);
                }
                let total: u32 = total64 as u32;
                let ghost total_s = total_portions(lens);
                let mut off: i64 = 0;
                let mut i: usize = 0;
                while i < c.children.len()
                    invariant
                        0 <= i <= c.children@.len(),
                        off == stack_offset(c.children@, c.orientation, inner, total_s, i as int),
                        0 <= off <= 0xFFFF_FFFFi64,
                        forall|j2: int|
                            0 <= j2 < i ==> child_alloc_ok(
                                c.children@,
                                c.orientation,
                                inner,
                                total_s,
                                j2,
                            ) && spec_layout_ok(
                                #[trigger] c.children@[j2],
                                spec_child_alloc(c.children@, c.orientation, inner, total_s, j2),
                            ),
                    decreases c.children@.len() - i,
                {
                    let child = &c.children[i];
                    let (stack_req, cross_req) = match c.orientation {
                        Orientation::Vertical => (child.height(), child.width()),
                        Orientation::Horizontal => (child.width(), child.height()),
                    };
                    let stack_is_pixels = match stack_req {
                        Length::Pixels(_) => true,
                        _ => false,
                    };
                    if !stack_is_pixels && total == 0 {
                        proof {
                            lemma_forest_layout_not_ok(
                                c.children@,
                                c.orientation,
                                inner,
                                total_s,
                                0,
                                i as int,
                            );
                        }
                        return false;
                    }
                    let (iw32, ih32) = (iw as u32, ih as u32);
                    let (w64, h64, cross_min, stack_min) = match c.orientation {
                        Orientation::Vertical => (
                            crate::view::util::resolve_wide(child.width(), iw32, 1),
                            crate::view::util::resolve_wide(child.height(), ih32, total),
                            inner.min.x,
                            inner.min.y,
                        ),
                        Orientation::Horizontal => (
                            crate::view::util::resolve_wide(child.width(), iw32, total),
                            crate::view::util::resolve_wide(child.height(), ih32, 1),
                            inner.min.y,
                            inner.min.x,
                        ),
                    };
                    let hi = i32::MAX as i64;
                    let lo = i32::MIN as i64;
                    let (stack64, cross64) = match c.orientation {
                        Orientation::Vertical => (h64, w64),
                        Orientation::Horizontal => (w64, h64),
                    };
                    let ok = w64 <= (i32::MAX as u64) && h64 <= (i32::MAX as u64) && (cross_min
                        as i64) + (cross64 as i64) <= hi && lo <= (stack_min as i64) + off && (
                    stack_min as i64) + off <= hi && (stack_min as i64) + off + (stack64 as i64)
                        <= hi;
                    if !ok {
                        proof {
                            lemma_forest_layout_not_ok(
                                c.children@,
                                c.orientation,
                                inner,
                                total_s,
                                0,
                                i as int,
                            );
                        }
                        return false;
                    }
                    let alloc = match c.orientation {
                        Orientation::Vertical => Bounds::new(
                            inner.min.x,
                            ((inner.min.y as i64) + off) as i32,
                            ((inner.min.x as i64) + (w64 as i64)) as i32,
                            ((inner.min.y as i64) + off + (h64 as i64)) as i32,
                        ),
                        Orientation::Horizontal => Bounds::new(
                            ((inner.min.x as i64) + off) as i32,
                            inner.min.y,
                            ((inner.min.x as i64) + off + (w64 as i64)) as i32,
                            ((inner.min.y as i64) + (h64 as i64)) as i32,
                        ),
                    };
                    proof {
                        assert(alloc == spec_child_alloc(
                            c.children@,
                            c.orientation,
                            inner,
                            total_s,
                            i as int,
                        ));
                        assert(decreases_to!(*self => c.children@[i as int]));
                    }
                    if !child.layout_fits(alloc) {
                        proof {
                            lemma_forest_layout_not_ok(
                                c.children@,
                                c.orientation,
                                inner,
                                total_s,
                                0,
                                i as int,
                            );
                        }
                        return false;
                    }
                    off = off + (stack64 as i64);
                    i = i + 1;
                }
                proof {
                    lemma_forest_layout_ok_build(
                        c.children@,
                        c.orientation,
                        inner,
                        total_s,
                        0,
                    );
                }
                true
            },
        }
    }
}

/// A forest whose children all pass their allocation checks can be
/// laid out from any starting index.
proof fn lemma_forest_layout_ok_build<M>(
    s: Seq<Drawer<M>>,
    o: Orientation,
    inner: Bounds,
    total: int,
    i: int,
)
    requires
        0 <= i <= s.len(),
        forall|j: int|
            i <= j < s.len() ==> child_alloc_ok(s, o, inner, total, j) && spec_layout_ok(
                #[trigger] s[j],
                spec_child_alloc(s, o, inner, total, j),
            ),
    ensures
        forest_layout_ok(s, o, inner, total, i),
    decreases s.len() - i,
{
    if i < s.len() {
        lemma_forest_layout_ok_build(s, o, inner, total, i + 1);
    }
}

/// The rectangle [`Drawer::adjust_bounds`] assigns: anchored at `min`,
/// extended by the requests resolved against the parent extents and
/// portion sums.
pub open spec fn spec_adjusted_bounds<M>(
    d: Drawer<M>,
    min: Point,
    parent_size: Point,
    px: int,
    py: int,
) -> Bounds {
    let w = resolved_pixels(d.spec_width(), parent_size.x as int, px);
    let h = resolved_pixels(d.spec_height(), parent_size.y as int, py);
    Bounds { min, max: Point { x: (min.x + w) as i32, y: (min.y + h) as i32 } }
}

impl<M: Copy> Drawer<M> {
    /// Assign the rectangle `bounds` to this tree: the node's bounds
    /// become `bounds` shrunk by its margin, a leaf re-uploads its
    /// background corners, and a container resolves each child's
    /// requests against its content rectangle — the stacking extent
    /// against the portion sum of all children, the cross extent
    /// against the full content extent — and recurses, stacking the
    /// children along its orientation. When the layout would divide by
    /// a zero portion sum or leave `i32` coordinates
    /// ([`spec_layout_ok`] fails), the tree is left unchanged. No
    /// objects are created or deleted.
    pub fn set_bounds(&mut self, context: &mut Context, bounds: Bounds)
        ensures
            spec_layout_ok(*old(self), bounds) ==> spec_laid_out(*old(self), *final(self), bounds),
            !spec_layout_ok(*old(self), bounds) ==> *final(self) == *old(self),
            final(context).same_objects(*old(context)),
            final(context).size == old(context).size,
            final(context).frame@.len() >= old(context).frame@.len(),
            final(context).frame@.subrange(0, old(context).frame@.len() as int) == old(
                context,
            ).frame@,
    {
        if self.layout_fits(bounds) {
            self.set_bounds_checked(context, bounds);
        } else {
            proof {
                assert(context.frame@.subrange(0, old(context).frame@.len() as int) =~= old(
                    context,
                ).frame@);
            }
        }
    }

    /// The layout recursion behind [`Drawer::set_bounds`].
    #[verifier::loop_isolation(false)]
    #[verifier::rlimit(100)]
    fn set_bounds_checked(&mut self, context: &mut Context, bounds: Bounds)
        requires
            spec_layout_ok(*old(self), bounds),
        ensures
            spec_laid_out(*old(self), *final(self), bounds),
            final(context).same_objects(*old(context)),
            final(context).size == old(context).size,
            final(context).frame@.len() >= old(context).frame@.len(),
            final(context).frame@.subrange(0, old(context).frame@.len() as int) == old(
                context,
            ).frame@,
        decreases *old(self), 0int,
    {
        match self {
            Drawer::Leaf(l) => {
                l.bounds = l.style.margin.shrink(bounds);
                let b = l.bounds;
                let mut corners: Vec<Point> = Vec::new();
                corners.push(b.min);
                corners.push(Point::new(b.min.x, b.max.y));
                corners.push(Point::new(b.max.x, b.min.y));
                corners.push(b.max);
                l.object.buffer_data(context, corners, DrawMode::Dynamic);
                proof {
                    assert(context.frame@.subrange(0, old(context).frame@.len() as int) =~= old(
                        context,
                    ).frame@);
                }
            },
            Drawer::Common(c) => {
                Self::layout_children(c, context, bounds);
            },
        }
    }

    /// The summed portion weight of the children's stacking-axis
    /// requests.
    #[verifier::loop_isolation(false)]
    fn sum_stack_portions(children: &Vec<Drawer<M>>, o: Orientation) -> (r: u32)
        requires
            total_portions(child_lengths(children@, o)) <= u32::MAX,
        ensures
            r == total_portions(child_lengths(children@, o)),
    {
        let ghost lens = child_lengths(children@, o);
        let mut total: u32 = 0;
        let mut j: usize = 0;
        proof {
            assert(lens.subrange(0, 0) =~= Seq::<Length>::empty());
        }
        while j < children.len()
            invariant
                0 <= j <= children@.len(),
                total == total_portions(lens.subrange(0, j as int)),
                total_portions(lens) <= u32::MAX,
            decreases children@.len() - j,
        {
            let child = &children[j];
            let request = match o {
                Orientation::Vertical => child.height(),
                Orientation::Horizontal => child.width(),
            };
            let weight: u32 = match request {
                Length::Fill => 1,
                Length::FillPortion(portion) => portion,
                Length::Pixels(_) => 0,
            };
            proof {
                assert(lens[j as int] == stack_request(children@[j as int], o));
                crate::view::util::lemma_total_portions_step(lens, j as int);
                crate::view::util::lemma_total_portions_prefix_le(lens, j as int + 1);
                crate::view::util::lemma_total_portions_nonneg(lens.subrange(0, j as int));
            }
            total = total + weight;
            j = j + 1;
        }
        proof {
            assert(lens.subrange(0, lens.len() as int) =~= lens);
        }
        total
    }

    /// The container case of the layout recursion: place every child
    /// at the rectangle [`spec_child_alloc`] gives it.
    fn layout_children(c: &mut CommonDrawer<M>, context: &mut Context, bounds: Bounds)
        requires
            spec_layout_ok(Drawer::Common(*old(c)), bounds),
        ensures
            spec_laid_out(Drawer::Common(*old(c)), Drawer::Common(*final(c)), bounds),
            final(context).same_objects(*old(context)),
            final(context).size == old(context).size,
            final(context).frame@.len() >= old(context).frame@.len(),
            final(context).frame@.subrange(0, old(context).frame@.len() as int) == old(
                context,
            ).frame@,
        decreases *old(c), 2int,
    {
        match c.orientation {
            Orientation::Vertical => Self::layout_column(c, context, bounds),
            Orientation::Horizontal => Self::layout_row(c, context, bounds),
        }
    }

    /// The column (vertical) case of the layout recursion.
    #[verifier::loop_isolation(false)]
    #[verifier::rlimit(100)]
    fn layout_column(c: &mut CommonDrawer<M>, context: &mut Context, bounds: Bounds)
        requires
            old(c).orientation == Orientation::Vertical,
            spec_layout_ok(Drawer::Common(*old(c)), bounds),
        ensures
            spec_laid_out(Drawer::Common(*old(c)), Drawer::Common(*final(c)), bounds),
            final(context).same_objects(*old(context)),
            final(context).size == old(context).size,
            final(context).frame@.len() >= old(context).frame@.len(),
            final(context).frame@.subrange(0, old(context).frame@.len() as int) == old(
                context,
            ).frame@,
        decreases *old(c), 1int,
    {
        let ghost whole: Seq<Drawer<M>> = c.children@;
        let ghost f0 = context.frame@;
        c.bounds = c.style.margin.shrink(bounds);
        let inner = c.style.padding.shrink(c.bounds);
        let ghost total_s = total_portions(child_lengths(whole, c.orientation));
        let total: u32 = Self::sum_stack_portions(&c.children, c.orientation);
        let parent_size = inner.size();
        let n = c.children.len();
        let mut i: usize = 0;
        let mut cursor: i32 = inner.min.y;
        while i < n
            invariant
                0 <= i <= whole.len(),
                n == whole.len(),
                c.style == old(c).style,
                c.orientation == old(c).orientation,
                c.bounds == spec_shrink(old(c).style.margin, bounds),
                forest_layout_ok(whole, c.orientation, inner, total_s, i as int),
                c.children@.len() == whole.len(),
                forall|k: int| i <= k < whole.len() ==> c.children@[k] == whole[k],
                forall|k: int|
                    0 <= k < i ==> spec_laid_out(
                        #[trigger] whole[k],
                        c.children@[k],
                        spec_child_alloc(whole, c.orientation, inner, total_s, k),
                    ),
                cursor as int == inner.min.y + stack_offset(
                    whole,
                    c.orientation,
                    inner,
                    total_s,
                    i as int,
                ),
                context.same_objects(*old(context)),
                context.size == old(context).size,
                context.frame@.len() >= f0.len(),
                context.frame@.subrange(0, f0.len() as int) == f0,
            decreases n - i,
        {
            let ghost fprev = context.frame@;
            proof {
                assert(child_alloc_ok(whole, c.orientation, inner, total_s, i as int));
                crate::view::util::lemma_resolved_nonneg(
                    whole[i as int].spec_width(),
                    inner_w(inner),
                    1int,
                );
                crate::view::util::lemma_resolved_nonneg(
                    whole[i as int].spec_height(),
                    inner_h(inner),
                    total_s,
                );
                assert(decreases_to!(*old(c) => whole[i as int]));
            }
            let min_pt = Point::new(inner.min.x, cursor);
            proof {
                assert(parent_size.x == inner_w(inner) && parent_size.y == inner_h(inner));
                assert(c.children@[i as int] == whole[i as int]);
                assert(spec_adjusted_bounds(
                    whole[i as int],
                    min_pt,
                    parent_size,
                    1int,
                    total_s,
                ) == spec_child_alloc(whole, c.orientation, inner, total_s, i as int));
            }
            let child = &mut c.children[i];
            let r = child.adjust_bounds(context, min_pt, parent_size, 1, total);
            proof {
                assert(r == spec_child_alloc(whole, c.orientation, inner, total_s, i as int).max);
                assert(stack_offset(whole, c.orientation, inner, total_s, i as int + 1)
                    == stack_offset(whole, c.orientation, inner, total_s, i as int)
                    + resolved_pixels(whole[i as int].spec_height(), inner_h(inner), total_s));
                crate::graphics::vertices::lemma_prefix_trans(f0, fprev, context.frame@);
            }
            cursor = r.y;
            i = i + 1;
        }
    }

    /// The row (horizontal) case of the layout recursion.
    #[verifier::loop_isolation(false)]
    #[verifier::rlimit(100)]
    fn layout_row(c: &mut CommonDrawer<M>, context: &mut Context, bounds: Bounds)
        requires
            old(c).orientation == Orientation::Horizontal,
            spec_layout_ok(Drawer::Common(*old(c)), bounds),
        ensures
            spec_laid_out(Drawer::Common(*old(c)), Drawer::Common(*final(c)), bounds),
            final(context).same_objects(*old(context)),
            final(context).size == old(context).size,
            final(context).frame@.len() >= old(context).frame@.len(),
            final(context).frame@.subrange(0, old(context).frame@.len() as int) == old(
                context,
            ).frame@,
        decreases *old(c), 1int,
    {
        let ghost whole: Seq<Drawer<M>> = c.children@;
        let ghost f0 = context.frame@;
        c.bounds = c.style.margin.shrink(bounds);
        let inner = c.style.padding.shrink(c.bounds);
        let ghost total_s = total_portions(child_lengths(whole, c.orientation));
        let total: u32 = Self::sum_stack_portions(&c.children, c.orientation);
        let parent_size = inner.size();
        let n = c.children.len();
        let mut i: usize = 0;
        let mut cursor: i32 = inner.min.x;
        while i < n
            invariant
                0 <= i <= whole.len(),
                n == whole.len(),
                c.style == old(c).style,
                c.orientation == old(c).orientation,
                c.bounds == spec_shrink(old(c).style.margin, bounds),
                forest_layout_ok(whole, c.orientation, inner, total_s, i as int),
                c.children@.len() == whole.len(),
                forall|k: int| i <= k < whole.len() ==> c.children@[k] == whole[k],
                forall|k: int|
                    0 <= k < i ==> spec_laid_out(
                        #[trigger] whole[k],
                        c.children@[k],
                        spec_child_alloc(whole, c.orientation, inner, total_s, k),
                    ),
                cursor as int == inner.min.x + stack_offset(
                    whole,
                    c.orientation,
                    inner,
                    total_s,
                    i as int,
                ),
                context.same_objects(*old(context)),
                context.size == old(context).size,
                context.frame@.len() >= f0.len(),
                context.frame@.subrange(0, f0.len() as int) == f0,
            decreases n - i,
        {
            let ghost fprev = context.frame@;
            proof {
                assert(child_alloc_ok(whole, c.orientation, inner, total_s, i as int));
                crate::view::util::lemma_resolved_nonneg(
                    whole[i as int].spec_width(),
                    inner_w(inner),
                    total_s,
                );
                crate::view::util::lemma_resolved_nonneg(
                    whole[i as int].spec_height(),
                    inner_h(inner),
                    1int,
                );
                assert(decreases_to!(*old(c) => whole[i as int]));
            }
            let min_pt = Point::new(cursor, inner.min.y);
            proof {
                assert(parent_size.x == inner_w(inner) && parent_size.y == inner_h(inner));
                assert(c.children@[i as int] == whole[i as int]);
                assert(spec_adjusted_bounds(
                    whole[i as int],
                    min_pt,
                    parent_size,
                    total_s,
                    1int,
                ) == spec_child_alloc(whole, c.orientation, inner, total_s, i as int));
            }
            let child = &mut c.children[i];
            let r = child.adjust_bounds(context, min_pt, parent_size, total, 1);
            proof {
                assert(r == spec_child_alloc(whole, c.orientation, inner, total_s, i as int).max);
                assert(stack_offset(whole, c.orientation, inner, total_s, i as int + 1)
                    == stack_offset(whole, c.orientation, inner, total_s, i as int)
                    + resolved_pixels(whole[i as int].spec_width(), inner_w(inner), total_s));
                crate::graphics::vertices::lemma_prefix_trans(f0, fprev, context.frame@);
            }
            cursor = r.x;
            i = i + 1;
        }
    }

    /// Resolve this node's requests against the parent's extents and
    /// portion sums, assign the resulting rectangle anchored at `min`,
    /// and return that rectangle's far corner — the anchor the next
    /// sibling stacks at.
    #[verifier::rlimit(30)]
    pub fn adjust_bounds(
        &mut self,
        context: &mut Context,
        min: Point,
        parent_size: Point,
        portions_x: u32,
        portions_y: u32,
    ) -> (r: Point)
        requires
            parent_size.x >= 0,
            parent_size.y >= 0,
            !(old(self).spec_width() is Pixels) ==> portions_x > 0,
            !(old(self).spec_height() is Pixels) ==> portions_y > 0,
            0 <= resolved_pixels(
                old(self).spec_width(),
                parent_size.x as int,
                portions_x as int,
            ) <= i32::MAX,
            0 <= resolved_pixels(
                old(self).spec_height(),
                parent_size.y as int,
                portions_y as int,
            ) <= i32::MAX,
            min.x + resolved_pixels(old(self).spec_width(), parent_size.x as int, portions_x as int)
                <= i32::MAX,
            min.y + resolved_pixels(
                old(self).spec_height(),
                parent_size.y as int,
                portions_y as int,
            ) <= i32::MAX,
            spec_layout_ok(
                *old(self),
                spec_adjusted_bounds(
                    *old(self),
                    min,
                    parent_size,
                    portions_x as int,
                    portions_y as int,
                ),
            ),
        ensures
            r == spec_adjusted_bounds(
                *old(self),
                min,
                parent_size,
                portions_x as int,
                portions_y as int,
            ).max,
            spec_laid_out(
                *old(self),
                *final(self),
                spec_adjusted_bounds(
                    *old(self),
                    min,
                    parent_size,
                    portions_x as int,
                    portions_y as int,
                ),
            ),
            final(context).same_objects(*old(context)),
            final(context).size == old(context).size,
            final(context).frame@.len() >= old(context).frame@.len(),
            final(context).frame@.subrange(0, old(context).frame@.len() as int) == old(
                context,
            ).frame@,
        decreases *old(self), 1int,
    {
        let size = Point::new(
            self.width().pixels(parent_size.x as u32, portions_x) as i32,
            self.height().pixels(parent_size.y as u32, portions_y) as i32,
        );
        let b = Bounds::pull(min, size);
        self.set_bounds_checked(context, b);
        b.max
    }
}

/// Structural equality of two drawer trees: the same nodes with the
/// same fields everywhere. (Plain equality is too fine here: a child
/// list rebuilt element for element denotes the same tree.)
pub open spec fn drawer_like<M>(a: Drawer<M>, b: Drawer<M>) -> bool
    decreases a,
{
    match (a, b) {
        (Drawer::Leaf(x), Drawer::Leaf(y)) => x == y,
        (Drawer::Common(x), Drawer::Common(y)) => {
            &&& x.bounds == y.bounds
            &&& x.style == y.style
            &&& x.orientation == y.orientation
            &&& x.children@.len() == y.children@.len()
            &&& forall|i: int|
                0 <= i < x.children@.len() ==> drawer_like(
                    #[trigger] x.children@[i],
                    y.children@[i],
                )
        },
        _ => false,
    }
}

/// How many commands and how many ephemeral objects drawing `d`
/// records, as `(commands, objects)`, when the context has `created`
/// handles in use: a leaf always records its background color change
/// and draw call, plus a 20-command border when it fits in `i32`
/// coordinates and the handle space; a container records its
/// 25-command style draw under the same guards, then its children in
/// order, the handle counter threading left to right.
pub open spec fn draw_effect<M>(d: Drawer<M>, created: u64) -> (int, int)
    decreases d, 0int,
{
    match d {
        Drawer::Leaf(l) => {
            if created <= u64::MAX - 4 && border_draw_ok(l.style.border.width as int, l.bounds) {
                (22int, 4int)
            } else {
                (2int, 0int)
            }
        },
        Drawer::Common(c) => {
            let own: (int, int) = if created <= u64::MAX - 5 && style_draw_ok(c.style, c.bounds) {
                (25int, 5int)
            } else {
                (0int, 0int)
            };
            let rest = forest_draw_effect(
                c.children@,
                (created + own.1) as u64,
                c.children@.len() as int,
            );
            (own.0 + rest.0, own.1 + rest.1)
        },
    }
}

/// The combined draw effect of the first `i` siblings, the handle
/// counter threading left to right.
pub open spec fn forest_draw_effect<M>(s: Seq<Drawer<M>>, created: u64, i: int) -> (int, int)
    decreases s, i,
{
    if i <= 0 || i > s.len() {
        (0int, 0int)
    } else {
        let p = forest_draw_effect(s, created, i - 1);
        let e = draw_effect(s[i - 1], (created + p.1) as u64);
        (p.0 + e.0, p.1 + e.1)
    }
}

/// A draw records a non-negative number of commands and objects.
pub proof fn lemma_draw_effect_nonneg<M>(d: Drawer<M>, created: u64)
    ensures
        draw_effect(d, created).0 >= 0,
        draw_effect(d, created).1 >= 0,
    decreases d, 0int,
{
    match d {
        Drawer::Leaf(_) => {},
        Drawer::Common(c) => {
            let own: (int, int) = if created <= u64::MAX - 5 && style_draw_ok(c.style, c.bounds) {
                (25int, 5int)
            } else {
                (0int, 0int)
            };
            lemma_forest_draw_effect_nonneg(
                c.children@,
                (created + own.1) as u64,
                c.children@.len() as int,
            );
        },
    }
}

/// The forest form of [`lemma_draw_effect_nonneg`].
pub proof fn lemma_forest_draw_effect_nonneg<M>(s: Seq<Drawer<M>>, created: u64, i: int)
    ensures
        forest_draw_effect(s, created, i).0 >= 0,
        forest_draw_effect(s, created, i).1 >= 0,
    decreases s, i,
{
    if i > 0 && i <= s.len() {
        let p = forest_draw_effect(s, created, i - 1);
        lemma_forest_draw_effect_nonneg(s, created, i - 1);
        lemma_draw_effect_nonneg(s[i - 1], (created + p.1) as u64);
    }
}

/// The draw effect of a prefix of siblings grows with the prefix.
proof fn lemma_forest_draw_effect_mono<M>(s: Seq<Drawer<M>>, created: u64, i: int, j: int)
    requires
        0 <= i <= j <= s.len(),
    ensures
        forest_draw_effect(s, created, i).0 <= forest_draw_effect(s, created, j).0,
        forest_draw_effect(s, created, i).1 <= forest_draw_effect(s, created, j).1,
    decreases j - i,
{
    if i < j {
        let p = forest_draw_effect(s, created, j - 1);
        lemma_forest_draw_effect_mono(s, created, i, j - 1);
        lemma_draw_effect_nonneg(s[j - 1], (created + p.1) as u64);
    }
}

/// What drawing `d` records: `frame[base .. base + draw_effect.0]` is
/// exactly the node's recording. A leaf records the color change to
/// its background, the draw call of its retained quad, then — when it
/// fits — its border; a container records its style draw, then every
/// child in insertion order, back to front.
pub open spec fn draws_at<M>(
    d: Drawer<M>,
    frame: Seq<DrawCommand>,
    base: int,
    created: u64,
) -> bool
    decreases d, 0int,
{
    match d {
        Drawer::Leaf(l) => {
            &&& frame[base] == (DrawCommand::SetColor { color: l.style.backdround })
            &&& crate::graphics::vertices::is_draw(
                frame[base + 1],
                l.object.handle,
                Shape::TriangleStrip,
                l.object.count as int,
                crate::graphics::ProgramKind::Solid,
            )
            &&& (created <= u64::MAX - 4 && border_draw_ok(l.style.border.width as int, l.bounds)
                ==> border_cmds_at(
                frame,
                base + 2,
                created,
                l.style.border.width as int,
                l.bounds,
                l.style.border.color,
            ))
        },
        Drawer::Common(c) => {
            let own: (int, int) = if created <= u64::MAX - 5 && style_draw_ok(c.style, c.bounds) {
                (25int, 5int)
            } else {
                (0int, 0int)
            };
            &&& (created <= u64::MAX - 5 && style_draw_ok(c.style, c.bounds) ==> style_cmds_at(
                frame,
                base,
                created,
                c.style,
                c.bounds,
            ))
            &&& forall|k: int|
                0 <= k < c.children@.len() ==> draws_at(
                    #[trigger] c.children@[k],
                    frame,
                    base + own.0 + forest_draw_effect(c.children@, (created + own.1) as u64, k).0,
                    (created + own.1 + forest_draw_effect(
                        c.children@,
                        (created + own.1) as u64,
                        k,
                    ).1) as u64,
                )
        },
    }
}

/// A draw recording is untouched by later frame extensions.
proof fn lemma_draws_at_extend<M>(
    d: Drawer<M>,
    f1: Seq<DrawCommand>,
    f2: Seq<DrawCommand>,
    base: int,
    created: u64,
)
    requires
        draws_at(d, f1, base, created),
        0 <= base,
        base + draw_effect(d, created).0 <= f1.len(),
        f1.len() <= f2.len(),
        f2.subrange(0, f1.len() as int) == f1,
    ensures
        draws_at(d, f2, base, created),
    decreases d, 0int,
{
    assert forall|i: int| 0 <= i < f1.len() implies f2[i] == f1[i] by {
        assert(f2.subrange(0, f1.len() as int)[i] == f2[i]);
    }
    match d {
        Drawer::Leaf(l) => {
            if created <= u64::MAX - 4 && border_draw_ok(l.style.border.width as int, l.bounds) {
                crate::view::style::lemma_border_cmds_extend(
                    f1,
                    f2,
                    base + 2,
                    created,
                    l.style.border.width as int,
                    l.bounds,
                    l.style.border.color,
                );
            }
        },
        Drawer::Common(c) => {
            let own: (int, int) = if created <= u64::MAX - 5 && style_draw_ok(c.style, c.bounds) {
                (25int, 5int)
            } else {
                (0int, 0int)
            };
            let c1 = (created + own.1) as u64;
            if created <= u64::MAX - 5 && style_draw_ok(c.style, c.bounds) {
                lemma_forest_draw_effect_nonneg(c.children@, c1, c.children@.len() as int);
                crate::view::style::lemma_style_cmds_extend(
                    f1,
                    f2,
                    base,
                    created,
                    c.style,
                    c.bounds,
                );
            }
            assert forall|k: int| 0 <= k < c.children@.len() implies draws_at(
                #[trigger] c.children@[k],
                f2,
                base + own.0 + forest_draw_effect(c.children@, c1, k).0,
                (created + own.1 + forest_draw_effect(c.children@, c1, k).1) as u64,
            ) by {
                let p = forest_draw_effect(c.children@, c1, k);
                lemma_forest_draw_effect_nonneg(c.children@, c1, k);
                lemma_forest_draw_effect_mono(c.children@, c1, k + 1, c.children@.len() as int);
                lemma_draws_at_extend(
                    c.children@[k],
                    f1,
                    f2,
                    base + own.0 + p.0,
                    (created + own.1 + p.1) as u64,
                );
            }
        },
    }
}

impl<M: Copy> Drawer<M> {
    /// Draw the subtree into the current frame, in tree order: each
    /// container its style then its children back to front, each leaf
    /// its retained background quad then its border. Drawing never
    /// changes the tree — layout is not recomputed, so a second draw
    /// without an intervening `set_bounds` or `process` records against
    /// the same bounds — and the context books stay balanced: whatever
    /// ephemeral objects a style draw creates it also deletes, so the
    /// live set is untouched. A node whose style cannot be drawn
    /// within `i32` coordinates, or with the handle space exhausted,
    /// skips its style draw.
    #[verifier::loop_isolation(false)]
    pub fn draw(&mut self, context: &mut Context)
        requires
            old(context).wf(),
        ensures
            drawer_like(*old(self), *final(self)),
            final(context).wf(),
            final(context).live@ == old(context).live@,
            final(context).created == old(context).created + draw_effect(
                *old(self),
                old(context).created,
            ).1,
            final(context).deleted == old(context).deleted + draw_effect(
                *old(self),
                old(context).created,
            ).1,
            final(context).size == old(context).size,
            final(context).frame@.len() == old(context).frame@.len() + draw_effect(
                *old(self),
                old(context).created,
            ).0,
            final(context).frame@.subrange(0, old(context).frame@.len() as int) == old(
                context,
            ).frame@,
            draws_at(
                *old(self),
                final(context).frame@,
                old(context).frame@.len() as int,
                old(context).created,
            ),
        decreases *old(self), 2int,
    {
        match self {
            Drawer::Leaf(l) => Self::draw_leaf(l, context),
            Drawer::Common(c) => Self::draw_children_of(c, context),
        }
    }

    /// The leaf case of the draw recursion.
    fn draw_leaf(l: &mut LeafDrawer<M>, context: &mut Context)
        requires
            old(context).wf(),
        ensures
            *final(l) == *old(l),
            final(context).wf(),
            final(context).live@ == old(context).live@,
            final(context).created == old(context).created + draw_effect(
                Drawer::Leaf(*old(l)),
                old(context).created,
            ).1,
            final(context).deleted == old(context).deleted + draw_effect(
                Drawer::Leaf(*old(l)),
                old(context).created,
            ).1,
            final(context).size == old(context).size,
            final(context).frame@.len() == old(context).frame@.len() + draw_effect(
                Drawer::Leaf(*old(l)),
                old(context).created,
            ).0,
            final(context).frame@.subrange(0, old(context).frame@.len() as int) == old(
                context,
            ).frame@,
            draws_at(
                Drawer::Leaf(*old(l)),
                final(context).frame@,
                old(context).frame@.len() as int,
                old(context).created,
            ),
    {
        let ghost f0 = context.frame@;
        context.set_color(l.style.backdround);
        l.object.draw(context, Shape::TriangleStrip);
        let ghost f1 = context.frame@;
        if context.created <= u64::MAX - 4 && l.style.border.draw_fits(l.bounds) {
            l.style.border.draw(context, l.bounds);
            proof {
                assert forall|i: int| 0 <= i < f1.len() implies context.frame@[i]
                    == f1[i] by {
                    assert(context.frame@.subrange(0, f1.len() as int)[i] == f1[i]);
                }
            }
        }
        proof {
            assert(f1.subrange(0, old(context).frame@.len() as int) =~= old(
                context,
            ).frame@);
            assert(context.frame@.subrange(0, f1.len() as int) =~= f1);
            crate::graphics::vertices::lemma_prefix_trans(
                old(context).frame@,
                f1,
                context.frame@,
            );
            let sc = DrawCommand::SetColor { color: l.style.backdround };
            assert(f0.push(sc)[f0.len() as int] == sc);
            assert(f1[f0.len() as int] == f0.push(sc)[f0.len() as int]);
            assert(f1[f0.len() as int + 1] == f1.last());
            assert(context.frame@[f0.len() as int] == f1[f0.len() as int]);
            assert(context.frame@[f0.len() as int + 1] == f1[f0.len() as int + 1]);
        }
    }

    /// The container case of the draw recursion: the style draw, then
    /// every child in insertion order.
    #[verifier::loop_isolation(false)]
    #[verifier::rlimit(100)]
    fn draw_children_of(c: &mut CommonDrawer<M>, context: &mut Context)
        requires
            old(context).wf(),
        ensures
            drawer_like(Drawer::Common(*old(c)), Drawer::Common(*final(c))),
            final(context).wf(),
            final(context).live@ == old(context).live@,
            final(context).created == old(context).created + draw_effect(
                Drawer::Common(*old(c)),
                old(context).created,
            ).1,
            final(context).deleted == old(context).deleted + draw_effect(
                Drawer::Common(*old(c)),
                old(context).created,
            ).1,
            final(context).size == old(context).size,
            final(context).frame@.len() == old(context).frame@.len() + draw_effect(
                Drawer::Common(*old(c)),
                old(context).created,
            ).0,
            final(context).frame@.subrange(0, old(context).frame@.len() as int) == old(
                context,
            ).frame@,
            draws_at(
                Drawer::Common(*old(c)),
                final(context).frame@,
                old(context).frame@.len() as int,
                old(context).created,
            ),
        decreases *old(c), 1int,
    {
        let ghost f0 = context.frame@;
        if context.created <= u64::MAX - 5 && c.style.draw_rectangle_fits(c.bounds) {
            c.style.draw_rectangle(context, c.bounds);
        }
        let ghost f1 = context.frame@;
        let ghost c1: u64 = context.created;
        let ghost d1: u64 = context.deleted;
        let ghost whole: Seq<Drawer<M>> = c.children@;
        let n = c.children.len();
        let mut i: usize = 0;
        while i < n
            invariant
                0 <= i <= whole.len(),
                n == whole.len(),
                c.style == (*old(c)).style,
                c.orientation == (*old(c)).orientation,
                c.bounds == (*old(c)).bounds,
                c.children@.len() == whole.len(),
                forall|k: int| i <= k < whole.len() ==> c.children@[k] == whole[k],
                forall|k: int|
                    0 <= k < i ==> drawer_like(#[trigger] whole[k], c.children@[k]),
                context.wf(),
                context.live@ == old(context).live@,
                context.created == c1 + forest_draw_effect(whole, c1, i as int).1,
                context.deleted == d1 + forest_draw_effect(whole, c1, i as int).1,
                context.size == old(context).size,
                context.frame@.len() == f1.len() + forest_draw_effect(
                    whole,
                    c1,
                    i as int,
                ).0,
                context.frame@.subrange(0, f1.len() as int) == f1,
                forall|k: int|
                    0 <= k < i ==> draws_at(
                        #[trigger] whole[k],
                        context.frame@,
                        f1.len() + forest_draw_effect(whole, c1, k).0,
                        (c1 + forest_draw_effect(whole, c1, k).1) as u64,
                    ),
            decreases n - i,
        {
            let ghost fprev = context.frame@;
            let ghost cprev: u64 = context.created;
            let ghost pi = forest_draw_effect(whole, c1, i as int);
            proof {
                lemma_forest_draw_effect_nonneg(whole, c1, i as int);
                assert(decreases_to!(*old(c) => whole[i as int]));
            }
            let child = &mut c.children[i];
            child.draw(context);
            proof {
                lemma_draw_effect_nonneg(whole[i as int], cprev);
                crate::graphics::vertices::lemma_prefix_trans(f1, fprev, context.frame@);
                assert(draws_at(
                    whole[i as int],
                    context.frame@,
                    f1.len() + pi.0,
                    (c1 + pi.1) as u64,
                ));
                assert forall|k: int| 0 <= k < i implies draws_at(
                    #[trigger] whole[k],
                    context.frame@,
                    f1.len() + forest_draw_effect(whole, c1, k).0,
                    (c1 + forest_draw_effect(whole, c1, k).1) as u64,
                ) by {
                    let pk = forest_draw_effect(whole, c1, k);
                    lemma_forest_draw_effect_nonneg(whole, c1, k);
                    lemma_forest_draw_effect_mono(whole, c1, k + 1, i as int);
                    assert(forest_draw_effect(whole, c1, k + 1).0 == pk.0 + draw_effect(
                        whole[k],
                        (c1 + pk.1) as u64,
                    ).0);
                    lemma_draws_at_extend(
                        whole[k],
                        fprev,
                        context.frame@,
                        f1.len() + pk.0,
                        (c1 + pk.1) as u64,
                    );
                }
            }
            i = i + 1;
        }
        proof {
            lemma_forest_draw_effect_nonneg(whole, c1, n as int);
            assert(f1.subrange(0, old(context).frame@.len() as int) =~= old(
                context,
            ).frame@);
            assert(context.frame@.subrange(0, f1.len() as int) =~= f1);
            crate::graphics::vertices::lemma_prefix_trans(
                old(context).frame@,
                f1,
                context.frame@,
            );
            if old(context).created <= u64::MAX - 5 && style_draw_ok(
                (*old(c)).style,
                (*old(c)).bounds,
            ) {
                crate::view::style::lemma_style_cmds_extend(
                    f1,
                    context.frame@,
                    f0.len() as int,
                    old(context).created,
                    (*old(c)).style,
                    (*old(c)).bounds,
                );
            }
        }
    }
}

/// The GPU handles a drawer tree owns: one per leaf.
pub open spec fn drawer_handles<M>(d: Drawer<M>) -> Set<u64>
    decreases d,
{
    match d {
        Drawer::Leaf(l) => Set::empty().insert(l.object.handle),
        Drawer::Common(c) => forest_handles(c.children@),
    }
}

/// The GPU handles owned by a sequence of sibling drawers.
pub open spec fn forest_handles<M>(s: Seq<Drawer<M>>) -> Set<u64>
    decreases s, s.len(),
{
    if s.len() == 0 {
        Set::empty()
    } else {
        forest_handles(s.drop_last()) + drawer_handles(s.last())
    }
}

/// How many GPU objects a drawer tree owns: one per leaf.
pub open spec fn object_count<M>(d: Drawer<M>) -> nat
    decreases d,
{
    match d {
        Drawer::Leaf(_) => 1,
        Drawer::Common(c) => forest_object_count(c.children@),
    }
}

/// How many GPU objects a sequence of sibling drawers owns.
pub open spec fn forest_object_count<M>(s: Seq<Drawer<M>>) -> nat
    decreases s, s.len(),
{
    if s.len() == 0 {
        0
    } else {
        forest_object_count(s.drop_last()) + object_count(s.last())
    }
}

/// No handle is owned twice anywhere in the tree.
pub open spec fn handles_wf<M>(d: Drawer<M>) -> bool
    decreases d,
{
    match d {
        Drawer::Leaf(_) => true,
        Drawer::Common(c) => forest_handles_wf(c.children@),
    }
}

/// No handle is owned twice across or within a sequence of sibling
/// drawers.
pub open spec fn forest_handles_wf<M>(s: Seq<Drawer<M>>) -> bool
    decreases s, s.len(),
{
    if s.len() == 0 {
        true
    } else {
        &&& forest_handles_wf(s.drop_last())
        &&& handles_wf(s.last())
        &&& forest_handles(s.drop_last()).disjoint(drawer_handles(s.last()))
    }
}

/// A tree owns finitely many handles.
pub proof fn lemma_drawer_handles_finite<M>(d: Drawer<M>)
    ensures
        drawer_handles(d).finite(),
    decreases d,
{
    match d {
        Drawer::Leaf(_) => {},
        Drawer::Common(c) => {
            lemma_forest_handles_finite(c.children@);
        },
    }
}

/// A forest owns finitely many handles.
pub proof fn lemma_forest_handles_finite<M>(s: Seq<Drawer<M>>)
    ensures
        forest_handles(s).finite(),
    decreases s, s.len(),
{
    if s.len() > 0 {
        lemma_forest_handles_finite(s.drop_last());
        lemma_drawer_handles_finite(s.last());
    }
}

/// Compilation/deletion pairing, on the handle books: a tree whose
/// handles are all distinct owns exactly one handle per object, so
/// tearing it down deletes exactly as many handles as compiling it
/// created.
pub proof fn lemma_handles_count<M>(d: Drawer<M>)
    requires
        handles_wf(d),
    ensures
        drawer_handles(d).len() == object_count(d),
    decreases d,
{
    match d {
        Drawer::Leaf(_) => {},
        Drawer::Common(c) => {
            lemma_forest_handles_count(c.children@);
        },
    }
}

/// The forest form of [`lemma_handles_count`].
pub proof fn lemma_forest_handles_count<M>(s: Seq<Drawer<M>>)
    requires
        forest_handles_wf(s),
    ensures
        forest_handles(s).len() == forest_object_count(s),
    decreases s, s.len(),
{
    if s.len() > 0 {
        lemma_forest_handles_count(s.drop_last());
        lemma_handles_count(s.last());
        lemma_forest_handles_finite(s.drop_last());
        lemma_drawer_handles_finite(s.last());
        vstd::set_lib::lemma_set_disjoint_lens(
            forest_handles(s.drop_last()),
            drawer_handles(s.last()),
        );
    }
}

impl<M: Copy> Drawer<M> {
    /// Tear the subtree down, releasing every owned GPU object exactly
    /// once: afterwards precisely this tree's handles have left the
    /// live set, and as many deletions were recorded as the tree owned
    /// objects.
    #[verifier::loop_isolation(false)]
    pub fn delete(self, context: &mut Context)
        requires
            old(context).wf(),
            handles_wf(self),
            drawer_handles(self).subset_of(old(context).live@),
        ensures
            final(context).wf(),
            final(context).created == old(context).created,
            final(context).deleted == old(context).deleted + object_count(self),
            final(context).live@ == old(context).live@.difference(drawer_handles(self)),
            final(context).size == old(context).size,
            final(context).frame@.len() >= old(context).frame@.len(),
            final(context).frame@.subrange(0, old(context).frame@.len() as int) == old(
                context,
            ).frame@,
        decreases self,
    {
        proof {
            lemma_drawer_handles_finite(self);
        }
        match self {
            Drawer::Leaf(l) => {
                l.object.delete(context);
                proof {
                    assert(context.live@ =~= old(context).live@.difference(
                        Set::empty().insert(l.object.handle),
                    ));
                    assert(context.frame@.subrange(0, old(context).frame@.len() as int) =~= old(
                        context,
                    ).frame@);
                }
            },
            Drawer::Common(c) => {
                let ghost whole: Seq<Drawer<M>> = c.children@;
                let ghost f0 = context.frame@;
                let ghost live0 = context.live@;
                let ghost deleted0 = context.deleted;
                let mut children = c.children;
                proof {
                    lemma_forest_handles_finite(whole);
                    assert(context.live@ =~= live0.difference(forest_handles(whole)).union(
                        forest_handles(children@),
                    ));
                }
                while children.len() > 0
                    invariant
                        context.wf(),
                        forest_handles_wf(children@),
                        children@.len() <= whole.len(),
                        children@ == whole.subrange(0, children@.len() as int),
                        forest_handles(children@).subset_of(context.live@),
                        forest_handles(children@).finite(),
                        context.live@ == live0.difference(forest_handles(whole)).union(
                            forest_handles(children@),
                        ),
                        context.deleted == deleted0 + forest_object_count(whole)
                            - forest_object_count(children@),
                        context.created == old(context).created,
                        context.size == old(context).size,
                        context.frame@.len() >= f0.len(),
                        context.frame@.subrange(0, f0.len() as int) == f0,
                        forest_object_count(children@) <= forest_object_count(whole),
                    decreases children@.len(),
                {
                    let ghost before: Seq<Drawer<M>> = children@;
                    let ghost fprev = context.frame@;
                    let child = match children.pop() {
                        Some(child) => child,
                        None => {
                            proof {
                                assert(false);
                            }
                            return ;
                        },
                    };
                    proof {
                        assert(before.drop_last() =~= children@);
                        assert(child == before.last());
                        assert(child == self->Common_0.children@[before.len() - 1]);
                        assert(decreases_to!(self => self->Common_0.children@[before.len() - 1]));
                        assert(decreases_to!(self => child));
                        lemma_forest_handles_prefix(whole, before.len() as int);
                        assert(drawer_handles(child).subset_of(context.live@));
                        lemma_forest_object_count_bounds(whole, children@.len() as int);
                    }
                    child.delete(context);
                    proof {
                        lemma_forest_handles_prefix(whole, before.len() as int);
                        assert(forest_handles(before) == forest_handles(children@) + drawer_handles(
                            child,
                        ));
                        assert(context.live@ =~= live0.difference(forest_handles(whole)).union(
                            forest_handles(children@),
                        ));
                        crate::graphics::vertices::lemma_prefix_trans(f0, fprev, context.frame@);
                    }
                }
                proof {
                    assert(children@ =~= Seq::<Drawer<M>>::empty());
                    assert(context.live@ =~= live0.difference(forest_handles(whole)));
                }
            },
        }
    }
}

/// Two forests with pointwise equal handle books have equal handle
/// books.
proof fn lemma_forest_same_handles<M>(xs: Seq<Drawer<M>>, ys: Seq<Drawer<M>>)
    requires
        xs.len() == ys.len(),
        forall|i: int|
            0 <= i < xs.len() ==> drawer_handles(#[trigger] ys[i]) == drawer_handles(xs[i])
                && object_count(ys[i]) == object_count(xs[i]) && (handles_wf(xs[i]) ==> handles_wf(
                ys[i],
            )),
    ensures
        forest_handles(ys) == forest_handles(xs),
        forest_object_count(ys) == forest_object_count(xs),
        forest_handles_wf(xs) ==> forest_handles_wf(ys),
    decreases xs.len(),
{
    if xs.len() > 0 {
        lemma_forest_same_handles(xs.drop_last(), ys.drop_last());
    }
}

/// Layout reassigns bounds and re-uploads leaf corners, but never
/// touches the handle books: the laid-out tree owns the same handles
/// and the same number of objects.
#[verifier::rlimit(60)]
pub proof fn lemma_laid_out_same_handles<M>(a: Drawer<M>, b: Drawer<M>, bounds: Bounds)
    requires
        spec_laid_out(a, b, bounds),
    ensures
        drawer_handles(b) == drawer_handles(a),
        object_count(b) == object_count(a),
        handles_wf(a) ==> handles_wf(b),
    decreases a,
{
    match (a, b) {
        (Drawer::Leaf(_), Drawer::Leaf(_)) => {},
        (Drawer::Common(x), Drawer::Common(y)) => {
            let nb = spec_shrink(x.style.margin, bounds);
            let inner = spec_shrink(x.style.padding, nb);
            let total = total_portions(child_lengths(x.children@, x.orientation));
            assert forall|i: int| 0 <= i < x.children@.len() implies drawer_handles(
                #[trigger] y.children@[i],
            ) == drawer_handles(x.children@[i]) && object_count(y.children@[i]) == object_count(
                x.children@[i],
            ) && (handles_wf(x.children@[i]) ==> handles_wf(y.children@[i])) by {
                lemma_laid_out_same_handles(
                    x.children@[i],
                    y.children@[i],
                    spec_child_alloc(x.children@, x.orientation, inner, total, i),
                );
            }
            lemma_forest_same_handles(x.children@, y.children@);
        },
        _ => {},
    }
}

/// Event processing never touches the handle books.
pub proof fn lemma_process_same_handles<M>(d: Drawer<M>, e: Event)
    ensures
        drawer_handles(spec_process(d, e).0) == drawer_handles(d),
        object_count(spec_process(d, e).0) == object_count(d),
        handles_wf(d) ==> handles_wf(spec_process(d, e).0),
{
}

/// A prefix of a forest owns a subset of the whole forest's handles.
proof fn lemma_forest_handles_prefix<M>(s: Seq<Drawer<M>>, i: int)
    requires
        0 <= i <= s.len(),
    ensures
        forest_handles(s.subrange(0, i)).subset_of(forest_handles(s)),
    decreases s.len() - i,
{
    if i == s.len() {
        assert(s.subrange(0, i) =~= s);
    } else {
        assert(s.subrange(0, i + 1).drop_last() =~= s.subrange(0, i));
        lemma_forest_handles_prefix(s, i + 1);
    }
}

/// A prefix of a forest never counts more objects than the whole.
proof fn lemma_forest_object_count_bounds<M>(s: Seq<Drawer<M>>, i: int)
    requires
        0 <= i <= s.len(),
    ensures
        forest_object_count(s.subrange(0, i)) <= forest_object_count(s),
    decreases s.len() - i,
{
    if i == s.len() {
        assert(s.subrange(0, i) =~= s);
    } else {
        assert(s.subrange(0, i + 1).drop_last() =~= s.subrange(0, i));
        lemma_forest_object_count_bounds(s, i + 1);
    }
}

} // verus!

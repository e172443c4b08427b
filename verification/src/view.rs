//! The declarative side of the toolkit: view descriptions and the
//! sizing/box-model vocabulary they are written in.
//!
//! A [`View`] is a cheaply built, cheaply discarded description of a
//! drawable tree. Compiling it ([`View::new_drawer`]) is the only
//! place GPU objects are allocated: every view leaf acquires exactly
//! one fresh vertex object, and the compiled drawer tree is
//! structurally isomorphic to the view.

pub mod style;
pub mod util;

pub use style::{Border, Style};
pub use util::{Indents, Length, Orientation};

use crate::drawer::{
    drawer_handles, forest_handles, forest_handles_wf, handles_wf, object_count, CommonDrawer,
    Drawer, LeafDrawer,
};
use crate::graphics::vertices::PointArray;
use crate::graphics::Context;
use crate::math::{Bounds, Point};
use vstd::prelude::*;
use vstd::view::View as VstdView;

verus! {

broadcast use vstd::set::group_set_axioms;

/// A declarative description of a drawable tree node: a container
/// stacking children along an orientation, or a leaf with an optional
/// click message.
pub enum View<M> {
    Container { style: Style, orientation: Orientation, children: Vec<View<M>> },
    Leaf { style: Style, on_click: Option<M> },
}

/// How many GPU objects compiling a view allocates: one per leaf.
pub open spec fn view_object_count<M>(v: View<M>) -> nat
    decreases v,
{
    match v {
        View::Leaf { .. } => 1,
        View::Container { children, .. } => view_forest_count(children@),
    }
}

/// How many GPU objects compiling a sequence of sibling views
/// allocates.
pub open spec fn view_forest_count<M>(s: Seq<View<M>>) -> nat
    decreases s, s.len(),
{
    if s.len() == 0 {
        0
    } else {
        view_forest_count(s.drop_last()) + view_object_count(s.last())
    }
}

/// A prefix of a view forest never counts more objects than the whole.
pub proof fn lemma_view_forest_count_prefix<M>(s: Seq<View<M>>, i: int)
    requires
        0 <= i <= s.len(),
    ensures
        view_forest_count(s.subrange(0, i)) <= view_forest_count(s),
    decreases s.len() - i,
{
    if i == s.len() {
        assert(s.subrange(0, i) =~= s);
    } else {
        assert(s.subrange(0, i + 1).drop_last() =~= s.subrange(0, i));
        lemma_view_forest_count_prefix(s, i + 1);
    }
}

/// Structural isomorphism between a freshly compiled drawer tree and
/// the view it was compiled from: the same shapes, styles and click
/// messages, with all bounds still zero and no vertex data uploaded.
pub open spec fn drawer_matches_view<M>(d: Drawer<M>, v: View<M>) -> bool
    decreases v,
{
    match (d, v) {
        (Drawer::Leaf(l), View::Leaf { style, on_click }) => {
            &&& l.style == style
            &&& l.on_click == on_click
            &&& l.bounds == (Bounds { min: Point { x: 0, y: 0 }, max: Point { x: 0, y: 0 } })
            &&& l.cursor == (Point { x: 0, y: 0 })
            &&& l.object.count == 0
        },
        (Drawer::Common(c), View::Container { style, orientation, children }) => {
            &&& c.style == style
            &&& c.orientation == orientation
            &&& c.bounds == (Bounds { min: Point { x: 0, y: 0 }, max: Point { x: 0, y: 0 } })
            &&& c.children@.len() == children@.len()
            &&& forall|i: int|
                0 <= i < children@.len() ==> drawer_matches_view(
                    c.children@[i],
                    #[trigger] children@[i],
                )
        },
        _ => false,
    }
}

/// An isomorphic drawer owns exactly one object per view leaf.
pub proof fn lemma_matches_view_count<M>(d: Drawer<M>, v: View<M>)
    requires
        drawer_matches_view(d, v),
    ensures
        object_count(d) == view_object_count(v),
    decreases v, 0int,
{
    match (d, v) {
        (Drawer::Leaf(_), View::Leaf { .. }) => {},
        (Drawer::Common(c), View::Container { children, .. }) => {
            lemma_matches_forest_count(c.children@, children@, children@.len() as int);
            assert(c.children@.subrange(0, children@.len() as int) =~= c.children@);
            assert(children@.subrange(0, children@.len() as int) =~= children@);
        },
        _ => {},
    }
}

/// The forest form of [`lemma_matches_view_count`], over prefixes.
proof fn lemma_matches_forest_count<M>(ds: Seq<Drawer<M>>, vs: Seq<View<M>>, i: int)
    requires
        ds.len() == vs.len(),
        0 <= i <= vs.len(),
        forall|k: int|
            0 <= k < vs.len() ==> drawer_matches_view(ds[k], #[trigger] vs[k]),
    ensures
        crate::drawer::forest_object_count(ds.subrange(0, i)) == view_forest_count(
            vs.subrange(0, i),
        ),
    decreases vs, i,
{
    if i > 0 {
        lemma_matches_forest_count(ds, vs, i - 1);
        lemma_matches_view_count(ds[i - 1], vs[i - 1]);
        assert(ds.subrange(0, i).drop_last() =~= ds.subrange(0, i - 1));
        assert(vs.subrange(0, i).drop_last() =~= vs.subrange(0, i - 1));
    }
}

/// Compilation/deletion pairing: a drawer tree compiled from a view
/// owns exactly one distinct handle per object, and exactly as many
/// objects as the view has leaves — so tearing the tree down
/// ([`Drawer::delete`]) deletes exactly as many objects as compiling
/// the view ([`View::new_drawer`]) created.
pub proof fn lemma_compile_delete_pairing<M>(v: View<M>, d: Drawer<M>)
    requires
        drawer_matches_view(d, v),
        handles_wf(d),
    ensures
        drawer_handles(d).len() == object_count(d),
        object_count(d) == view_object_count(v),
{
    crate::drawer::lemma_handles_count(d);
    lemma_matches_view_count(d, v);
}

impl<M: Copy> View<M> {
    /// A leaf view.
    pub fn leaf(style: Style, on_click: Option<M>) -> (r: Self)
        ensures
            r == (View::Leaf { style, on_click }),
    {
        View::Leaf { style, on_click }
    }

    /// How many GPU objects compiling this view would allocate,
    /// saturating at the end of the handle space.
    #[verifier::loop_isolation(false)]
    pub fn count_objects(&self) -> (r: u64)
        ensures
            r <= view_object_count(*self),
            r < u64::MAX ==> r == view_object_count(*self),
        decreases *self,
    {
        match self {
            View::Leaf { .. } => 1,
            View::Container { children, .. } => {
                let ghost vs = children@;
                let mut acc: u64 = 0;
                let mut i: usize = 0;
                proof {
                    assert(vs.subrange(0, 0) =~= Seq::<View<M>>::empty());
                }
                while i < children.len()
                    invariant
                        0 <= i <= vs.len(),
                        acc <= view_forest_count(vs.subrange(0, i as int)),
                        acc < u64::MAX ==> acc == view_forest_count(vs.subrange(0, i as int)),
                    decreases vs.len() - i,
                {
                    proof {
                        assert(vs.subrange(0, i as int + 1).drop_last() =~= vs.subrange(
                            0,
                            i as int,
                        ));
                        assert(decreases_to!(*self => vs[i as int]));
                    }
                    let child = &children[i];
                    let c = child.count_objects();
                    acc = match acc.checked_add(c) {
                        Some(v) => v,
                        None => u64::MAX,
                    };
                    i = i + 1;
                }
                proof {
                    assert(vs.subrange(0, vs.len() as int) =~= vs);
                }
                acc
            },
        }
    }

    /// Compile this view into a drawer tree bound to `context`: the
    /// only place GPU objects are allocated. Exactly one fresh vertex
    /// object is created per leaf — the new handles are exactly the
    /// block `[old created, new created)`, all distinct, and the
    /// compiled tree is structurally isomorphic to the view.
    #[verifier::loop_isolation(false)]
    #[verifier::rlimit(60)]
    pub fn new_drawer(&self, context: &mut Context) -> (d: Drawer<M>)
        requires
            old(context).wf(),
            old(context).created + view_object_count(*self) <= u64::MAX,
        ensures
            final(context).wf(),
            final(context).created == old(context).created + view_object_count(*self),
            final(context).deleted == old(context).deleted,
            final(context).size == old(context).size,
            final(context).frame@.len() >= old(context).frame@.len(),
            final(context).frame@.subrange(0, old(context).frame@.len() as int) == old(
                context,
            ).frame@,
            drawer_matches_view(d, *self),
            handles_wf(d),
            drawer_handles(d).finite(),
            forall|h: u64|
                #![auto]
                drawer_handles(d).contains(h) <==> (old(context).created <= h
                    < final(context).created),
            final(context).live@ == old(context).live@.union(drawer_handles(d)),
        decreases *self,
    {
        match self {
            View::Leaf { style, on_click } => {
                let object = PointArray::new(context);
                let d = Drawer::Leaf(
                    LeafDrawer {
                        bounds: Bounds::zero(),
                        style: *style,
                        on_click: *on_click,
                        cursor: Point::zero(),
                        object,
                    },
                );
                proof {
                    assert(drawer_handles(d) =~= Set::empty().insert(old(context).created));
                    assert(context.live@ =~= old(context).live@.union(drawer_handles(d)));
                    assert(context.frame@.subrange(0, old(context).frame@.len() as int) =~= old(
                        context,
                    ).frame@);
                }
                d
            },
            View::Container { style, orientation, children } => {
                let ghost c0 = old(context).created;
                let ghost f0 = context.frame@;
                let mut ds: Vec<Drawer<M>> = Vec::new();
                let n = children.len();
                let mut i: usize = 0;
                proof {
                    assert(children@.subrange(0, 0) =~= Seq::<View<M>>::empty());
                    assert(forest_handles(ds@) =~= Set::<u64>::empty());
                    assert(context.live@ =~= old(context).live@.union(forest_handles(ds@)));
                }
                while i < n
                    invariant
                        0 <= i <= children@.len(),
                        n == children@.len(),
                        ds@.len() == i,
                        forall|k: int|
                            0 <= k < i ==> drawer_matches_view(
                                ds@[k],
                                #[trigger] children@[k],
                            ),
                        forest_handles_wf(ds@),
                        forest_handles(ds@).finite(),
                        forall|h: u64|
                            forest_handles(ds@).contains(h) <==> (c0 <= h < context.created),
                        context.wf(),
                        context.created == c0 + view_forest_count(children@.subrange(0, i as int)),
                        context.deleted == old(context).deleted,
                        context.size == old(context).size,
                        context.live@ == old(context).live@.union(forest_handles(ds@)),
                        context.frame@.len() >= f0.len(),
                        context.frame@.subrange(0, f0.len() as int) == f0,
                    decreases n - i,
                {
                    let ghost fprev = context.frame@;
                    let ghost ds_prev = ds@;
                    proof {
                        assert(children@.subrange(0, i as int + 1).drop_last() =~= children@
                            .subrange(0, i as int));
                        lemma_view_forest_count_prefix(children@, i as int + 1);
                        assert(decreases_to!(*self => children@[i as int]));
                    }
                    let child = &children[i];
                    let cd = child.new_drawer(context);
                    proof {
                        assert(ds_prev.push(cd).drop_last() =~= ds_prev);
                        assert(forest_handles(ds_prev).disjoint(drawer_handles(cd)));
                    }
                    ds.push(cd);
                    proof {
                        crate::graphics::vertices::lemma_prefix_trans(f0, fprev, context.frame@);
                        assert(context.live@ =~= old(context).live@.union(forest_handles(ds@)));
                    }
                    i = i + 1;
                }
                proof {
                    assert(children@.subrange(0, n as int) =~= children@);
                }
                Drawer::Common(
                    CommonDrawer {
                        bounds: Bounds::zero(),
                        style: *style,
                        orientation: *orientation,
                        children: ds,
                    },
                )
            },
        }
    }
}

/// A container view stacking `children` along `orientation`.
pub struct Container;

impl Container {
    pub fn new<M: Copy>(orientation: Orientation, style: Style, children: Vec<View<M>>) -> (r:
        View<M>)
        ensures
            r == (View::Container { style, orientation, children }),
    {
        View::Container { style, orientation, children }
    }
}

/// A container stacking its children horizontally.
pub struct Row;

impl Row {
    pub fn new<M: Copy>(style: Style, children: Vec<View<M>>) -> (r: View<M>)
        ensures
            r == (View::Container { style, orientation: Orientation::Horizontal, children }),
    {
        Container::new(Orientation::Horizontal, style, children)
    }
}

/// A container stacking its children vertically.
pub struct Column;

impl Column {
    pub fn new<M: Copy>(style: Style, children: Vec<View<M>>) -> (r: View<M>)
        ensures
            r == (View::Container { style, orientation: Orientation::Vertical, children }),
    {
        Container::new(Orientation::Vertical, style, children)
    }
}

} // verus!

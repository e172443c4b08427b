//! The contract between the toolkit and its host event loop.
//!
//! The loop itself — window creation, buffer swapping, event polling —
//! lives with the windowing backend; what the toolkit owns is the
//! decision taken for each arriving event: resize the context and
//! re-lay-out on a framebuffer change, feed the event to the drawer
//! tree, apply the answered message to the model, and on an update
//! command tear the old drawer tree down completely before compiling a
//! fresh one, so that no two trees' objects are ever live for the same
//! view.

use crate::command::Command;
use crate::drawer::{
    drawer_handles, handles_wf, lemma_laid_out_same_handles, lemma_process_same_handles,
    object_count, spec_laid_out, spec_layout_ok, spec_process, CommonDrawer, Drawer,
};
use crate::event::Event;
use crate::graphics::Context;
use crate::math::{Bounds, Point};
use crate::model::Model;
use crate::view::{drawer_matches_view, Length, Orientation, Style};
use vstd::prelude::*;

verus! {

broadcast use vstd::set::group_set_axioms;

/// The initial window size: a fixed pixel size, or as large as the
/// screen allows.
#[derive(Debug, Clone, Copy, PartialEq, Eq, Structural)]
pub enum Size {
    Pixels(u32, u32),
    Max,
}

impl Default for Size {
    fn default() -> (r: Self)
        ensures
            r == Size::Pixels(600, 400),
    {
        Self::Pixels(600, 400)
    }
}

/// The resize phase of one driver step: a framebuffer event resizes
/// the context and assigns the full new window rectangle to the tree
/// (when that layout fits, otherwise the tree is left as it was);
/// every other event leaves the tree untouched.
pub open spec fn resize_phase<M>(d: Drawer<M>, event: Event, mid: Drawer<M>) -> bool {
    match event {
        Event::FramebufferSize(w, h) => {
            let b = Bounds { min: Point { x: 0, y: 0 }, max: Point { x: w, y: h } };
            if spec_layout_ok(d, b) {
                spec_laid_out(d, mid, b)
            } else {
                mid == d
            }
        },
        _ => mid == d,
    }
}

/// Feed one window event through the toolkit, as the driver loop must:
/// a framebuffer resize reassigns the full window bounds before the
/// next draw; every event reaches the drawer tree; an answered message
/// updates the model; and an update command replaces the drawer tree
/// — the old tree is deleted in full before the new one is compiled,
/// so exactly the old tree's handles leave the live set and exactly
/// the new tree's enter it. Returns whether the tree was replaced.
pub fn step_event<T: Model>(
    model: &mut T,
    drawer: &mut Drawer<T::Message>,
    context: &mut Context,
    event: Event,
) -> (rebuilt: bool)
    requires
        old(context).wf(),
        handles_wf(*old(drawer)),
        drawer_handles(*old(drawer)).subset_of(old(context).live@),
    ensures
        final(context).wf(),
        handles_wf(*final(drawer)),
        drawer_handles(*final(drawer)).subset_of(final(context).live@),
        drawer_handles(*final(drawer)).finite(),
        !rebuilt ==> final(context).live@ == old(context).live@ && drawer_handles(*final(drawer))
            == drawer_handles(*old(drawer)),
        rebuilt ==> final(context).live@ == old(context).live@.difference(
            drawer_handles(*old(drawer)),
        ).union(drawer_handles(*final(drawer))),
        (match event {
            Event::FramebufferSize(w, h) => final(context).size == (Point { x: w, y: h }),
            _ => final(context).size == old(context).size,
        }),
        exists|mid: Drawer<T::Message>|
            #![auto]
            {
                &&& resize_phase(*old(drawer), event, mid)
                &&& (spec_process(mid, event).1 is None ==> !rebuilt)
                &&& (rebuilt ==> spec_process(mid, event).1 is Some)
                &&& (!rebuilt ==> *final(drawer) == spec_process(mid, event).0)
            },
{
    proof {
        crate::drawer::lemma_drawer_handles_finite(*drawer);
    }
    match event {
        Event::FramebufferSize(w, h) => {
            let size = Point::new(w, h);
            context.set_size(size);
            let ghost before = *drawer;
            let ghost b = Bounds { min: Point { x: 0, y: 0 }, max: Point { x: w, y: h } };
            drawer.set_bounds(context, Bounds::from_size(size));
            proof {
                if crate::drawer::spec_layout_ok(before, b) {
                    lemma_laid_out_same_handles(before, *drawer, b);
                }
            }
        },
        _ => {},
    }
    let ghost mid_tree: Drawer<T::Message> = *drawer;
    proof {
        assert(resize_phase(*old(drawer), event, mid_tree));
    }
    let message = drawer.process(event);
    proof {
        lemma_process_same_handles(mid_tree, event);
        assert((*drawer, message) == spec_process(mid_tree, event));
    }
    match message {
        Some(m) => {
            match model.update(m) {
                Command::Update => {
                    let mut old_tree: Drawer<T::Message> = Drawer::Common(
                        CommonDrawer {
                            bounds: Bounds::zero(),
                            style: Style {
                                width: Length::Fill,
                                height: Length::Fill,
                                margin: crate::view::Indents::zero(),
                                padding: crate::view::Indents::zero(),
                                backdround: crate::graphics::Color::transparent(),
                                border: crate::view::Border::new(
                                    0,
                                    crate::graphics::Color::transparent(),
                                ),
                            },
                            orientation: Orientation::Vertical,
                            children: Vec::new(),
                        },
                    );
                    core::mem::swap(drawer, &mut old_tree);
                    let ghost placeholder = *drawer;
                    proof {
                        assert(crate::drawer::forest_handles(Seq::<Drawer<T::Message>>::empty())
                            =~= Set::<u64>::empty());
                        assert(drawer_handles(placeholder) =~= Set::<u64>::empty());
                    }
                    old_tree.delete(context);
                    let v = model.view();
                    let count = v.count_objects();
                    if count < u64::MAX && context.created <= u64::MAX - count {
                        *drawer = v.new_drawer(context);
                    } else {
                        proof {
                            assert(context.live@ =~= context.live@.union(
                                drawer_handles(placeholder),
                            ));
                        }
                    }
                    return true;
                },
                _ => {},
            }
        },
        None => {},
    }
    false
}

} // verus!

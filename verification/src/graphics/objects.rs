//! Retained polyline objects: vertex arrays whose draw call is always
//! a line strip, for paths that are re-uploaded from time to time and
//! drawn every frame.

use super::color::Color;
use super::vertices::{
    is_create, is_delete, is_draw, is_upload_colored, is_upload_positions, DrawCommand, DrawMode,
    ProgramKind,
};
use super::Context;
use crate::math::Point;
use vstd::prelude::*;

verus! {

broadcast use vstd::set::group_set_axioms;

/// A GPU-resident line strip of bare positions, drawn through the
/// solid program.
#[derive(Debug)]
pub struct Polyline {
    pub handle: u64,
    pub vertices: usize,
}

impl Polyline {
    /// Acquire a vertex array under a fresh handle.
    pub fn new(context: &mut Context) -> (r: Self)
        requires
            old(context).wf(),
            old(context).created < u64::MAX,
        ensures
            final(context).wf(),
            r.handle == old(context).created,
            r.vertices == 0,
            !old(context).live@.contains(r.handle),
            final(context).live@ == old(context).live@.insert(r.handle),
            final(context).created == old(context).created + 1,
            final(context).deleted == old(context).deleted,
            final(context).size == old(context).size,
            final(context).frame@ == old(context).frame@.push(
                DrawCommand::Create { handle: r.handle, program: ProgramKind::Solid },
            ),
    {
        let handle = context.alloc_handle(ProgramKind::Solid);
        Polyline { handle, vertices: 0 }
    }

    /// Upload the strip's positions and remember their count.
    pub fn store(&mut self, context: &mut Context, data: Vec<Point>, mode: DrawMode)
        ensures
            final(self).handle == old(self).handle,
            final(self).vertices == data@.len(),
            final(context).same_objects(*old(context)),
            final(context).size == old(context).size,
            final(context).frame@.len() == old(context).frame@.len() + 1,
            final(context).frame@.subrange(0, old(context).frame@.len() as int) == old(
                context,
            ).frame@,
            is_upload_positions(final(context).frame@.last(), old(self).handle, data@, mode),
    {
        self.vertices = data.len();
        context.push_command(
            DrawCommand::Upload {
                handle: self.handle,
                data: super::vertices::VertexData::Positions(data),
                mode,
            },
        );
        proof {
            assert(final(context).frame@.subrange(0, old(context).frame@.len() as int) =~= old(
                context,
            ).frame@);
        }
    }

    /// Draw the strip.
    pub fn draw(&self, context: &mut Context)
        ensures
            final(context).same_objects(*old(context)),
            final(context).size == old(context).size,
            final(context).frame@ == old(context).frame@.push(
                DrawCommand::Draw {
                    handle: self.handle,
                    shape: super::vertices::Shape::LineStrip,
                    count: self.vertices,
                    program: ProgramKind::Solid,
                },
            ),
    {
        context.push_command(
            DrawCommand::Draw {
                handle: self.handle,
                shape: super::vertices::Shape::LineStrip,
                count: self.vertices,
                program: ProgramKind::Solid,
            },
        );
    }

    /// Release the vertex array; the handle cannot be used afterwards.
    pub fn delete(self, context: &mut Context)
        requires
            old(context).wf(),
            old(context).live@.contains(self.handle),
        ensures
            final(context).wf(),
            final(context).live@ == old(context).live@.remove(self.handle),
            final(context).created == old(context).created,
            final(context).deleted == old(context).deleted + 1,
            final(context).size == old(context).size,
            final(context).frame@ == old(context).frame@.push(
                DrawCommand::Delete { handle: self.handle },
            ),
    {
        context.free_handle(self.handle)
    }

    /// Upload once with the stream hint and draw immediately.
    pub fn draw_stream(&mut self, context: &mut Context, data: Vec<Point>)
        ensures
            final(self).handle == old(self).handle,
            final(self).vertices == data@.len(),
            final(context).same_objects(*old(context)),
            final(context).size == old(context).size,
            final(context).frame@.len() == old(context).frame@.len() + 2,
            final(context).frame@.subrange(0, old(context).frame@.len() as int) == old(
                context,
            ).frame@,
            is_upload_positions(
                final(context).frame@[old(context).frame@.len() as int],
                old(self).handle,
                data@,
                DrawMode::Stream,
            ),
            is_draw(
                final(context).frame@[old(context).frame@.len() as int + 1],
                old(self).handle,
                super::vertices::Shape::LineStrip,
                data@.len() as int,
                ProgramKind::Solid,
            ),
    {
        self.store(context, data, DrawMode::Stream);
        self.draw(context);
        proof {
            assert(final(context).frame@.subrange(0, old(context).frame@.len() as int) =~= old(
                context,
            ).frame@);
        }
    }

    /// Draw `data` once through an ephemeral strip: create, upload,
    /// draw, delete — the context books end balanced.
    pub fn stream(context: &mut Context, data: Vec<Point>)
        requires
            old(context).wf(),
            old(context).created < u64::MAX,
        ensures
            final(context).wf(),
            final(context).live@ == old(context).live@,
            final(context).created == old(context).created + 1,
            final(context).deleted == old(context).deleted + 1,
            final(context).size == old(context).size,
            final(context).frame@.len() == old(context).frame@.len() + 4,
            final(context).frame@.subrange(0, old(context).frame@.len() as int) == old(
                context,
            ).frame@,
            is_create(
                final(context).frame@[old(context).frame@.len() as int],
                old(context).created,
                ProgramKind::Solid,
            ),
            is_upload_positions(
                final(context).frame@[old(context).frame@.len() as int + 1],
                old(context).created,
                data@,
                DrawMode::Stream,
            ),
            is_draw(
                final(context).frame@[old(context).frame@.len() as int + 2],
                old(context).created,
                super::vertices::Shape::LineStrip,
                data@.len() as int,
                ProgramKind::Solid,
            ),
            is_delete(final(context).frame@[old(context).frame@.len() as int + 3], old(context).created),
    {
        let ghost f0 = context.frame@;
        let mut object = Self::new(context);
        let ghost f1 = context.frame@;
        object.draw_stream(context, data);
        let ghost f2 = context.frame@;
        object.delete(context);
        proof {
            assert(final(context).live@ =~= old(context).live@);
            assert forall|i: int| 0 <= i < f0.len() implies context.frame@[i] == f0[i] by {
                assert(f2[i] == f2.subrange(0, f1.len() as int)[i]);
            }
            assert(final(context).frame@.subrange(0, old(context).frame@.len() as int) =~= old(
                context,
            ).frame@);
            assert(f2[f0.len() as int] == f2.subrange(0, f1.len() as int)[f0.len() as int]);
            assert(context.frame@[f0.len() as int] == f1[f0.len() as int]);
            assert(context.frame@[f0.len() as int + 1] == f2[f1.len() as int]);
            assert(context.frame@[f0.len() as int + 2] == f2[f1.len() as int + 1]);
            assert(context.frame@[f0.len() as int + 3] == context.frame@.last());
        }
    }
}

/// A GPU-resident line strip of position/color pairs, drawn through
/// the gradient program.
#[derive(Debug)]
pub struct PolylineGradient {
    pub handle: u64,
    pub vertices: usize,
}

impl PolylineGradient {
    /// Acquire a vertex array under a fresh handle.
    pub fn new(context: &mut Context) -> (r: Self)
        requires
            old(context).wf(),
            old(context).created < u64::MAX,
        ensures
            final(context).wf(),
            r.handle == old(context).created,
            r.vertices == 0,
            !old(context).live@.contains(r.handle),
            final(context).live@ == old(context).live@.insert(r.handle),
            final(context).created == old(context).created + 1,
            final(context).deleted == old(context).deleted,
            final(context).size == old(context).size,
            final(context).frame@ == old(context).frame@.push(
                DrawCommand::Create { handle: r.handle, program: ProgramKind::Gradient },
            ),
    {
        let handle = context.alloc_handle(ProgramKind::Gradient);
        PolylineGradient { handle, vertices: 0 }
    }

    /// Upload the strip's colored vertices and remember their count.
    pub fn store(&mut self, context: &mut Context, data: Vec<(Point, Color)>, mode: DrawMode)
        ensures
            final(self).handle == old(self).handle,
            final(self).vertices == data@.len(),
            final(context).same_objects(*old(context)),
            final(context).size == old(context).size,
            final(context).frame@.len() == old(context).frame@.len() + 1,
            final(context).frame@.subrange(0, old(context).frame@.len() as int) == old(
                context,
            ).frame@,
            is_upload_colored(final(context).frame@.last(), old(self).handle, data@, mode),
    {
        self.vertices = data.len();
        context.push_command(
            DrawCommand::Upload {
                handle: self.handle,
                data: super::vertices::VertexData::PositionsColors(data),
                mode,
            },
        );
        proof {
            assert(final(context).frame@.subrange(0, old(context).frame@.len() as int) =~= old(
                context,
            ).frame@);
        }
    }

    /// Draw the strip.
    pub fn draw(&self, context: &mut Context)
        ensures
            final(context).same_objects(*old(context)),
            final(context).size == old(context).size,
            final(context).frame@ == old(context).frame@.push(
                DrawCommand::Draw {
                    handle: self.handle,
                    shape: super::vertices::Shape::LineStrip,
                    count: self.vertices,
                    program: ProgramKind::Gradient,
                },
            ),
    {
        context.push_command(
            DrawCommand::Draw {
                handle: self.handle,
                shape: super::vertices::Shape::LineStrip,
                count: self.vertices,
                program: ProgramKind::Gradient,
            },
        );
    }

    /// Release the vertex array; the handle cannot be used afterwards.
    pub fn delete(self, context: &mut Context)
        requires
            old(context).wf(),
            old(context).live@.contains(self.handle),
        ensures
            final(context).wf(),
            final(context).live@ == old(context).live@.remove(self.handle),
            final(context).created == old(context).created,
            final(context).deleted == old(context).deleted + 1,
            final(context).size == old(context).size,
            final(context).frame@ == old(context).frame@.push(
                DrawCommand::Delete { handle: self.handle },
            ),
    {
        context.free_handle(self.handle)
    }

    /// Upload once with the stream hint and draw immediately.
    pub fn draw_stream(&mut self, context: &mut Context, data: Vec<(Point, Color)>)
        ensures
            final(self).handle == old(self).handle,
            final(self).vertices == data@.len(),
            final(context).same_objects(*old(context)),
            final(context).size == old(context).size,
            final(context).frame@.len() == old(context).frame@.len() + 2,
            final(context).frame@.subrange(0, old(context).frame@.len() as int) == old(
                context,
            ).frame@,
            is_upload_colored(
                final(context).frame@[old(context).frame@.len() as int],
                old(self).handle,
                data@,
                DrawMode::Stream,
            ),
            is_draw(
                final(context).frame@[old(context).frame@.len() as int + 1],
                old(self).handle,
                super::vertices::Shape::LineStrip,
                data@.len() as int,
                ProgramKind::Gradient,
            ),
    {
        self.store(context, data, DrawMode::Stream);
        self.draw(context);
        proof {
            assert(final(context).frame@.subrange(0, old(context).frame@.len() as int) =~= old(
                context,
            ).frame@);
        }
    }

    /// Draw `data` once through an ephemeral strip: create, upload,
    /// draw, delete — the context books end balanced.
    pub fn stream(context: &mut Context, data: Vec<(Point, Color)>)
        requires
            old(context).wf(),
            old(context).created < u64::MAX,
        ensures
            final(context).wf(),
            final(context).live@ == old(context).live@,
            final(context).created == old(context).created + 1,
            final(context).deleted == old(context).deleted + 1,
            final(context).size == old(context).size,
            final(context).frame@.len() == old(context).frame@.len() + 4,
            final(context).frame@.subrange(0, old(context).frame@.len() as int) == old(
                context,
            ).frame@,
            is_create(
                final(context).frame@[old(context).frame@.len() as int],
                old(context).created,
                ProgramKind::Gradient,
            ),
            is_upload_colored(
                final(context).frame@[old(context).frame@.len() as int + 1],
                old(context).created,
                data@,
                DrawMode::Stream,
            ),
            is_draw(
                final(context).frame@[old(context).frame@.len() as int + 2],
                old(context).created,
                super::vertices::Shape::LineStrip,
                data@.len() as int,
                ProgramKind::Gradient,
            ),
            is_delete(final(context).frame@[old(context).frame@.len() as int + 3], old(context).created),
    {
        let ghost f0 = context.frame@;
        let mut object = Self::new(context);
        let ghost f1 = context.frame@;
        object.draw_stream(context, data);
        let ghost f2 = context.frame@;
        object.delete(context);
        proof {
            assert(final(context).live@ =~= old(context).live@);
            assert forall|i: int| 0 <= i < f0.len() implies context.frame@[i] == f0[i] by {
                assert(f2[i] == f2.subrange(0, f1.len() as int)[i]);
            }
            assert(final(context).frame@.subrange(0, old(context).frame@.len() as int) =~= old(
                context,
            ).frame@);
            assert(f2[f0.len() as int] == f2.subrange(0, f1.len() as int)[f0.len() as int]);
            assert(context.frame@[f0.len() as int] == f1[f0.len() as int]);
            assert(context.frame@[f0.len() as int + 1] == f2[f1.len() as int]);
            assert(context.frame@[f0.len() as int + 2] == f2[f1.len() as int + 1]);
            assert(context.frame@[f0.len() as int + 3] == context.frame@.last());
        }
    }
}

} // verus!

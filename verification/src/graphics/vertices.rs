//! Vertex objects and the draw-command vocabulary.
//!
//! The context records every backend call as a [`DrawCommand`]; a
//! backend executes the recorded frame against the real GPU. A vertex
//! object is a GPU-resident vertex array: it is created against a
//! context, filled by an upload, drawn any number of times, and must be
//! deleted exactly once before it is discarded — deletion consumes the
//! object, so a deleted handle cannot be used again.

use super::color::Color;
use super::Context;
use crate::math::Point;
use vstd::prelude::*;

verus! {

broadcast use vstd::set::group_set_axioms;

/// How often uploaded vertex data is expected to change: uploaded once
/// and drawn many times, changed from time to time, or uploaded once
/// and drawn once.
#[derive(Debug, Clone, Copy, PartialEq, Eq, Structural)]
pub enum DrawMode {
    Static,
    Dynamic,
    Stream,
}

/// The primitive topology of a draw call.
#[derive(Debug, Clone, Copy, PartialEq, Eq, Structural)]
pub enum Shape {
    Points,
    Lines,
    LineLoop,
    LineStrip,
    Triangles,
    TriangleStrip,
    TriangleFan,
    Quads,
}

/// Which of the two fixed shader programs a vertex object is bound to:
/// a uniform-color program, or a per-vertex-color program.
#[derive(Debug, Clone, Copy, PartialEq, Eq, Structural)]
pub enum ProgramKind {
    Solid,
    Gradient,
}

/// The payload of an upload: bare positions for the solid program, or
/// position/color pairs for the gradient program. Positions are in
/// window pixel space; the backend normalises them to clip space.
#[derive(Debug)]
pub enum VertexData {
    Positions(Vec<Point>),
    PositionsColors(Vec<(Point, Color)>),
}

/// One recorded backend call.
#[derive(Debug)]
pub enum DrawCommand {
    /// Clear the color buffer.
    Clear,
    /// Set the uniform color of the solid program.
    SetColor { color: Color },
    /// Acquire a vertex array under a fresh handle, bound to a program.
    Create { handle: u64, program: ProgramKind },
    /// Upload vertex data into the array behind `handle`.
    Upload { handle: u64, data: VertexData, mode: DrawMode },
    /// Issue one draw call for `count` vertices of the array behind
    /// `handle`.
    Draw { handle: u64, shape: Shape, count: usize, program: ProgramKind },
    /// Release the vertex array behind `handle`.
    Delete { handle: u64 },
}

/// Whether `c` creates `h` against program `p`.
pub open spec fn is_create(c: DrawCommand, h: u64, p: ProgramKind) -> bool {
    c == (DrawCommand::Create { handle: h, program: p })
}

/// Whether `c` deletes `h`.
pub open spec fn is_delete(c: DrawCommand, h: u64) -> bool {
    c == (DrawCommand::Delete { handle: h })
}

/// Whether `c` draws `count` vertices of `h` with topology `shape`.
pub open spec fn is_draw(c: DrawCommand, h: u64, shape: Shape, count: int, p: ProgramKind) -> bool {
    match c {
        DrawCommand::Draw { handle, shape: s, count: n, program } => handle == h && s == shape && n
            == count && program == p,
        _ => false,
    }
}

/// Whether `c` uploads exactly the positions `pts` into `h`.
pub open spec fn is_upload_positions(
    c: DrawCommand,
    h: u64,
    pts: Seq<Point>,
    mode: DrawMode,
) -> bool {
    match c {
        DrawCommand::Upload { handle, data, mode: m } => handle == h && m == mode && match data {
            VertexData::Positions(v) => v@ == pts,
            _ => false,
        },
        _ => false,
    }
}

/// Whether `c` uploads exactly the position/color pairs `pts` into `h`.
pub open spec fn is_upload_colored(
    c: DrawCommand,
    h: u64,
    pts: Seq<(Point, Color)>,
    mode: DrawMode,
) -> bool {
    match c {
        DrawCommand::Upload { handle, data, mode: m } => handle == h && m == mode && match data {
            VertexData::PositionsColors(v) => v@ == pts,
            _ => false,
        },
        _ => false,
    }
}

/// The pointwise pairing of a position sequence with a color sequence.
pub open spec fn zip_colors(p: Seq<Point>, c: Seq<Color>) -> Seq<(Point, Color)> {
    Seq::new(p.len(), |i: int| (p[i], c[i]))
}

/// A prefix preserved over two successive frame extensions is
/// preserved over their composition.
pub proof fn lemma_prefix_trans<T>(a: Seq<T>, b: Seq<T>, c: Seq<T>)
    requires
        a.len() <= b.len() <= c.len(),
        b.subrange(0, a.len() as int) == a,
        c.subrange(0, b.len() as int) == b,
    ensures
        c.subrange(0, a.len() as int) == a,
{
    assert forall|i: int| 0 <= i < a.len() implies c[i] == a[i] by {
        assert(b.subrange(0, a.len() as int)[i] == b[i]);
        assert(c.subrange(0, b.len() as int)[i] == c[i]);
    }
    assert(c.subrange(0, a.len() as int) =~= a);
}

/// Whether `frame[base .. base + 5]` is exactly one ephemeral solid
/// rectangle draw of `b` in `color` through handle `h`: create, upload
/// of the four corners in triangle-strip order, color change, draw,
/// delete.
pub open spec fn rect_cmds_at(
    frame: Seq<DrawCommand>,
    base: int,
    h: u64,
    b: crate::math::Bounds,
    color: Color,
) -> bool {
    &&& is_create(frame[base], h, ProgramKind::Solid)
    &&& is_upload_positions(
        frame[base + 1],
        h,
        seq![
            b.min,
            Point { x: b.min.x, y: b.max.y },
            Point { x: b.max.x, y: b.min.y },
            b.max,
        ],
        DrawMode::Stream,
    )
    &&& frame[base + 2] == (DrawCommand::SetColor { color })
    &&& is_draw(frame[base + 3], h, Shape::TriangleStrip, 4, ProgramKind::Solid)
    &&& is_delete(frame[base + 4], h)
}

/// A rectangle recording is untouched by later frame extensions.
pub proof fn lemma_rect_cmds_extend(
    f1: Seq<DrawCommand>,
    f2: Seq<DrawCommand>,
    base: int,
    h: u64,
    b: crate::math::Bounds,
    color: Color,
)
    requires
        rect_cmds_at(f1, base, h, b, color),
        0 <= base,
        base + 5 <= f1.len(),
        f1.len() <= f2.len(),
        f2.subrange(0, f1.len() as int) == f1,
    ensures
        rect_cmds_at(f2, base, h, b, color),
{
    assert forall|i: int| 0 <= i < f1.len() implies f2[i] == f1[i] by {
        assert(f2.subrange(0, f1.len() as int)[i] == f2[i]);
    }
}

/// A GPU-resident array of bare positions, drawn through the solid
/// program.
#[derive(Debug)]
pub struct PointArray {
    pub handle: u64,
    pub count: usize,
}

impl PointArray {
    /// Acquire a vertex array under a fresh handle.
    pub fn new(context: &mut Context) -> (r: Self)
        requires
            old(context).wf(),
            old(context).created < u64::MAX,
        ensures
            final(context).wf(),
            r.handle == old(context).created,
            r.count == 0,
            !old(context).live@.contains(r.handle),
            final(context).live@ == old(context).live@.insert(r.handle),
            final(context).created == old(context).created + 1,
            final(context).deleted == old(context).deleted,
            final(context).size == old(context).size,
            final(context).frame@ == old(context).frame@.push(
                DrawCommand::Create { handle: r.handle, program: ProgramKind::Solid },
            ),
    {
        let handle = context.alloc_handle(ProgramKind::Solid);
        PointArray { handle, count: 0 }
    }

    /// Upload `data` into this array and remember its vertex count.
    pub fn buffer_data(&mut self, context: &mut Context, data: Vec<Point>, draw_mode: DrawMode)
        ensures
            final(self).handle == old(self).handle,
            final(self).count == data@.len(),
            final(context).same_objects(*old(context)),
            final(context).size == old(context).size,
            final(context).frame@.len() == old(context).frame@.len() + 1,
            final(context).frame@.subrange(0, old(context).frame@.len() as int) == old(
                context,
            ).frame@,
            is_upload_positions(
                final(context).frame@.last(),
                old(self).handle,
                data@,
                draw_mode,
            ),
    {
        self.count = data.len();
        context.push_command(
            DrawCommand::Upload {
                handle: self.handle,
                data: VertexData::Positions(data),
                mode: draw_mode,
            },
        );
        proof {
            assert(final(context).frame@.subrange(0, old(context).frame@.len() as int) =~= old(
                context,
            ).frame@);
        }
    }

    /// Issue one draw call for the uploaded vertices.
    pub fn draw(&self, context: &mut Context, shape: Shape)
        ensures
            final(context).same_objects(*old(context)),
            final(context).size == old(context).size,
            final(context).frame@ == old(context).frame@.push(
                DrawCommand::Draw {
                    handle: self.handle,
                    shape,
                    count: self.count,
                    program: ProgramKind::Solid,
                },
            ),
    {
        context.push_command(
            DrawCommand::Draw {
                handle: self.handle,
                shape,
                count: self.count,
                program: ProgramKind::Solid,
            },
        );
    }

    /// Release the vertex array; the handle cannot be used afterwards.
    pub fn delete(self, context: &mut Context)
        requires
            old(context).wf(),
            old(context).live@.contains(self.handle),
        ensures
            final(context).wf(),
            final(context).live@ == old(context).live@.remove(self.handle),
            final(context).created == old(context).created,
            final(context).deleted == old(context).deleted + 1,
            final(context).size == old(context).size,
            final(context).frame@ == old(context).frame@.push(
                DrawCommand::Delete { handle: self.handle },
            ),
    {
        context.free_handle(self.handle)
    }

    /// Upload once with the stream hint and draw immediately.
    pub fn draw_stream(&mut self, context: &mut Context, data: Vec<Point>, shape: Shape)
        ensures
            final(self).handle == old(self).handle,
            final(self).count == data@.len(),
            final(context).same_objects(*old(context)),
            final(context).size == old(context).size,
            final(context).frame@.len() == old(context).frame@.len() + 2,
            final(context).frame@.subrange(0, old(context).frame@.len() as int) == old(
                context,
            ).frame@,
            is_upload_positions(
                final(context).frame@[old(context).frame@.len() as int],
                old(self).handle,
                data@,
                DrawMode::Stream,
            ),
            is_draw(
                final(context).frame@[old(context).frame@.len() as int + 1],
                old(self).handle,
                shape,
                data@.len() as int,
                ProgramKind::Solid,
            ),
    {
        self.buffer_data(context, data, DrawMode::Stream);
        self.draw(context, shape);
        proof {
            assert(final(context).frame@.subrange(0, old(context).frame@.len() as int) =~= old(
                context,
            ).frame@);
        }
    }

    /// Draw `data` once through an ephemeral array: create, upload,
    /// draw, delete — the context books end balanced.
    pub fn draw_once(context: &mut Context, data: Vec<Point>, shape: Shape)
        requires
            old(context).wf(),
            old(context).created < u64::MAX,
        ensures
            final(context).wf(),
            final(context).live@ == old(context).live@,
            final(context).created == old(context).created + 1,
            final(context).deleted == old(context).deleted + 1,
            final(context).size == old(context).size,
            final(context).frame@.len() == old(context).frame@.len() + 4,
            final(context).frame@.subrange(0, old(context).frame@.len() as int) == old(
                context,
            ).frame@,
            is_create(
                final(context).frame@[old(context).frame@.len() as int],
                old(context).created,
                ProgramKind::Solid,
            ),
            is_upload_positions(
                final(context).frame@[old(context).frame@.len() as int + 1],
                old(context).created,
                data@,
                DrawMode::Stream,
            ),
            is_draw(
                final(context).frame@[old(context).frame@.len() as int + 2],
                old(context).created,
                shape,
                data@.len() as int,
                ProgramKind::Solid,
            ),
            is_delete(final(context).frame@[old(context).frame@.len() as int + 3], old(context).created),
    {
        let ghost f0 = context.frame@;
        let mut object = Self::new(context);
        let ghost f1 = context.frame@;
        object.draw_stream(context, data, shape);
        let ghost f2 = context.frame@;
        object.delete(context);
        proof {
            assert(final(context).live@ =~= old(context).live@);
            assert forall|i: int| 0 <= i < f0.len() implies context.frame@[i] == f0[i] by {
                assert(f2[i] == f2.subrange(0, f1.len() as int)[i]);
            }
            assert(final(context).frame@.subrange(0, old(context).frame@.len() as int) =~= old(
                context,
            ).frame@);
            assert(f2[f0.len() as int] == f2.subrange(0, f1.len() as int)[f0.len() as int]);
            assert(context.frame@[f0.len() as int] == f1[f0.len() as int]);
            assert(context.frame@[f0.len() as int + 1] == f2[f1.len() as int]);
            assert(context.frame@[f0.len() as int + 2] == f2[f1.len() as int + 1]);
            assert(context.frame@[f0.len() as int + 3] == context.frame@.last());
        }
    }
}

/// A GPU-resident array of position/color pairs, drawn through the
/// gradient program.
#[derive(Debug)]
pub struct PointColorArray {
    pub handle: u64,
    pub count: usize,
}

impl PointColorArray {
    /// Acquire a vertex array under a fresh handle.
    pub fn new(context: &mut Context) -> (r: Self)
        requires
            old(context).wf(),
            old(context).created < u64::MAX,
        ensures
            final(context).wf(),
            r.handle == old(context).created,
            r.count == 0,
            !old(context).live@.contains(r.handle),
            final(context).live@ == old(context).live@.insert(r.handle),
            final(context).created == old(context).created + 1,
            final(context).deleted == old(context).deleted,
            final(context).size == old(context).size,
            final(context).frame@ == old(context).frame@.push(
                DrawCommand::Create { handle: r.handle, program: ProgramKind::Gradient },
            ),
    {
        let handle = context.alloc_handle(ProgramKind::Gradient);
        PointColorArray { handle, count: 0 }
    }

    /// Upload `data` into this array and remember its vertex count.
    pub fn buffer_data(
        &mut self,
        context: &mut Context,
        data: Vec<(Point, Color)>,
        draw_mode: DrawMode,
    )
        ensures
            final(self).handle == old(self).handle,
            final(self).count == data@.len(),
            final(context).same_objects(*old(context)),
            final(context).size == old(context).size,
            final(context).frame@.len() == old(context).frame@.len() + 1,
            final(context).frame@.subrange(0, old(context).frame@.len() as int) == old(
                context,
            ).frame@,
            is_upload_colored(final(context).frame@.last(), old(self).handle, data@, draw_mode),
    {
        self.count = data.len();
        context.push_command(
            DrawCommand::Upload {
                handle: self.handle,
                data: VertexData::PositionsColors(data),
                mode: draw_mode,
            },
        );
        proof {
            assert(final(context).frame@.subrange(0, old(context).frame@.len() as int) =~= old(
                context,
            ).frame@);
        }
    }

    /// Issue one draw call for the uploaded vertices.
    pub fn draw(&self, context: &mut Context, shape: Shape)
        ensures
            final(context).same_objects(*old(context)),
            final(context).size == old(context).size,
            final(context).frame@ == old(context).frame@.push(
                DrawCommand::Draw {
                    handle: self.handle,
                    shape,
                    count: self.count,
                    program: ProgramKind::Gradient,
                },
            ),
    {
        context.push_command(
            DrawCommand::Draw {
                handle: self.handle,
                shape,
                count: self.count,
                program: ProgramKind::Gradient,
            },
        );
    }

    /// Release the vertex array; the handle cannot be used afterwards.
    pub fn delete(self, context: &mut Context)
        requires
            old(context).wf(),
            old(context).live@.contains(self.handle),
        ensures
            final(context).wf(),
            final(context).live@ == old(context).live@.remove(self.handle),
            final(context).created == old(context).created,
            final(context).deleted == old(context).deleted + 1,
            final(context).size == old(context).size,
            final(context).frame@ == old(context).frame@.push(
                DrawCommand::Delete { handle: self.handle },
            ),
    {
        context.free_handle(self.handle)
    }

    /// Upload once with the stream hint and draw immediately.
    pub fn draw_stream(&mut self, context: &mut Context, data: Vec<(Point, Color)>, shape: Shape)
        ensures
            final(self).handle == old(self).handle,
            final(self).count == data@.len(),
            final(context).same_objects(*old(context)),
            final(context).size == old(context).size,
            final(context).frame@.len() == old(context).frame@.len() + 2,
            final(context).frame@.subrange(0, old(context).frame@.len() as int) == old(
                context,
            ).frame@,
            is_upload_colored(
                final(context).frame@[old(context).frame@.len() as int],
                old(self).handle,
                data@,
                DrawMode::Stream,
            ),
            is_draw(
                final(context).frame@[old(context).frame@.len() as int + 1],
                old(self).handle,
                shape,
                data@.len() as int,
                ProgramKind::Gradient,
            ),
    {
        self.buffer_data(context, data, DrawMode::Stream);
        self.draw(context, shape);
        proof {
            assert(final(context).frame@.subrange(0, old(context).frame@.len() as int) =~= old(
                context,
            ).frame@);
        }
    }

    /// Draw `data` once through an ephemeral array: create, upload,
    /// draw, delete — the context books end balanced.
    pub fn draw_once(context: &mut Context, data: Vec<(Point, Color)>, shape: Shape)
        requires
            old(context).wf(),
            old(context).created < u64::MAX,
        ensures
            final(context).wf(),
            final(context).live@ == old(context).live@,
            final(context).created == old(context).created + 1,
            final(context).deleted == old(context).deleted + 1,
            final(context).size == old(context).size,
            final(context).frame@.len() == old(context).frame@.len() + 4,
            final(context).frame@.subrange(0, old(context).frame@.len() as int) == old(
                context,
            ).frame@,
            is_create(
                final(context).frame@[old(context).frame@.len() as int],
                old(context).created,
                ProgramKind::Gradient,
            ),
            is_upload_colored(
                final(context).frame@[old(context).frame@.len() as int + 1],
                old(context).created,
                data@,
                DrawMode::Stream,
            ),
            is_draw(
                final(context).frame@[old(context).frame@.len() as int + 2],
                old(context).created,
                shape,
                data@.len() as int,
                ProgramKind::Gradient,
            ),
            is_delete(final(context).frame@[old(context).frame@.len() as int + 3], old(context).created),
    {
        let ghost f0 = context.frame@;
        let mut object = Self::new(context);
        let ghost f1 = context.frame@;
        object.draw_stream(context, data, shape);
        let ghost f2 = context.frame@;
        object.delete(context);
        proof {
            assert(final(context).live@ =~= old(context).live@);
            assert forall|i: int| 0 <= i < f0.len() implies context.frame@[i] == f0[i] by {
                assert(f2[i] == f2.subrange(0, f1.len() as int)[i]);
            }
            assert(final(context).frame@.subrange(0, old(context).frame@.len() as int) =~= old(
                context,
            ).frame@);
            assert(f2[f0.len() as int] == f2.subrange(0, f1.len() as int)[f0.len() as int]);
            assert(context.frame@[f0.len() as int] == f1[f0.len() as int]);
            assert(context.frame@[f0.len() as int + 1] == f2[f1.len() as int]);
            assert(context.frame@[f0.len() as int + 2] == f2[f1.len() as int + 1]);
            assert(context.frame@[f0.len() as int + 3] == context.frame@.last());
        }
    }
}

} // verus!

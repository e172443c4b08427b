//! The render backend abstraction.
//!
//! [`Context`] stands between the toolkit and the GPU: it hands out
//! handles for vertex objects and records every backend call of the
//! current frame as a [`DrawCommand`] list that an unverified backend
//! executes in order. The context keeps exact books on object lifetime:
//! the set of live handles, and how many were ever created and deleted.
//! Every drawing operation leaves those books balanced — what a frame
//! creates for a one-shot draw it also deletes.

pub mod color;
pub mod objects;
pub mod vertices;

use crate::math::{Bounds, Point};
use vstd::prelude::*;

pub use color::Color;
pub use objects::{Polyline, PolylineGradient};
pub use vertices::{DrawCommand, DrawMode, PointArray, PointColorArray, ProgramKind, Shape, VertexData};

use vertices::{is_create, is_delete, is_draw, is_upload_colored, is_upload_positions, zip_colors};

verus! {

broadcast use vstd::set::group_set_axioms;

/// The render context: the current viewport size in pixels, the
/// commands recorded since the frame was last taken, and the books on
/// vertex-object handles.
pub struct Context {
    /// Viewport size in pixels.
    pub size: Point,
    /// Backend calls recorded since the last [`Context::take_frame`].
    pub frame: Vec<DrawCommand>,
    /// How many handles were ever created.
    pub created: u64,
    /// How many handles were deleted again.
    pub deleted: u64,
    /// The handles created and not yet deleted.
    pub live: Ghost<Set<u64>>,
}

impl Context {
    /// The books balance: handles are never deleted twice, live
    /// handles are exactly those created and not deleted, and every
    /// live handle is one that was created.
    pub open spec fn wf(self) -> bool {
        &&& self.live@.finite()
        &&& self.deleted <= self.created
        &&& self.live@.len() == self.created - self.deleted
        &&& forall|h: u64| self.live@.contains(h) ==> h < self.created
    }

    /// The object books of `self` and `other` agree.
    pub open spec fn same_objects(self, other: Context) -> bool {
        &&& self.created == other.created
        &&& self.deleted == other.deleted
        &&& self.live@ == other.live@
    }

    pub fn new(size: Point) -> (c: Context)
        ensures
            c.wf(),
            c.size == size,
            c.frame@ == Seq::<DrawCommand>::empty(),
            c.created == 0,
            c.deleted == 0,
            c.live@ == Set::<u64>::empty(),
    {
        Context {
            size,
            frame: Vec::new(),
            created: 0,
            deleted: 0,
            live: Ghost(Set::empty()),
        }
    }

    pub fn set_size(&mut self, size: Point)
        ensures
            *final(self) == (Context { size, ..*old(self) }),
    {
        self.size = size;
    }

    /// Record a clear of the color buffer.
    pub fn clear(&mut self)
        ensures
            final(self).frame@ == old(self).frame@.push(DrawCommand::Clear),
            final(self).size == old(self).size,
            final(self).same_objects(*old(self)),
    {
        self.frame.push(DrawCommand::Clear);
    }

    /// Record a change of the solid program's uniform color.
    pub fn set_color(&mut self, color: Color)
        ensures
            final(self).frame@ == old(self).frame@.push(DrawCommand::SetColor { color }),
            final(self).size == old(self).size,
            final(self).same_objects(*old(self)),
    {
        self.frame.push(DrawCommand::SetColor { color });
    }

    /// Hand the recorded frame to the backend and start a new one.
    pub fn take_frame(&mut self) -> (cmds: Vec<DrawCommand>)
        ensures
            cmds@ == old(self).frame@,
            final(self).frame@ == Seq::<DrawCommand>::empty(),
            final(self).size == old(self).size,
            final(self).same_objects(*old(self)),
    {
        let mut cmds: Vec<DrawCommand> = Vec::new();
        core::mem::swap(&mut cmds, &mut self.frame);
        cmds
    }

    /// Acquire a fresh handle and record its creation.
    pub(crate) fn alloc_handle(&mut self, program: ProgramKind) -> (h: u64)
        requires
            old(self).wf(),
            old(self).created < u64::MAX,
        ensures
            final(self).wf(),
            h == old(self).created,
            !old(self).live@.contains(h),
            final(self).live@ == old(self).live@.insert(h),
            final(self).created == old(self).created + 1,
            final(self).deleted == old(self).deleted,
            final(self).size == old(self).size,
            final(self).frame@ == old(self).frame@.push(
                DrawCommand::Create { handle: h, program },
            ),
    {
        let h = self.created;
        self.created = self.created + 1;
        proof {
            self.live@ = self.live@.insert(h);
        }
        self.frame.push(DrawCommand::Create { handle: h, program });
        h
    }

    /// Release a live handle and record its deletion.
    pub(crate) fn free_handle(&mut self, h: u64)
        requires
            old(self).wf(),
            old(self).live@.contains(h),
        ensures
            final(self).wf(),
            final(self).live@ == old(self).live@.remove(h),
            final(self).created == old(self).created,
            final(self).deleted == old(self).deleted + 1,
            final(self).size == old(self).size,
            final(self).frame@ == old(self).frame@.push(DrawCommand::Delete { handle: h }),
    {
        proof {
            self.live@ = self.live@.remove(h);
        }
        self.deleted = self.deleted + 1;
        self.frame.push(DrawCommand::Delete { handle: h });
    }

    /// Record an upload or draw call on a live handle.
    pub(crate) fn push_command(&mut self, cmd: DrawCommand)
        ensures
            final(self).frame@ == old(self).frame@.push(cmd),
            final(self).size == old(self).size,
            final(self).same_objects(*old(self)),
    {
        self.frame.push(cmd);
    }

    /// Draw a set of individually colored points in one ephemeral
    /// object: create, upload, draw, delete — the books end balanced.
    pub fn draw_points(&mut self, points: &Vec<Point>, colors: &Vec<Color>)
        requires
            old(self).wf(),
            old(self).created < u64::MAX,
            points@.len() == colors@.len(),
        ensures
            final(self).wf(),
            final(self).size == old(self).size,
            final(self).live@ == old(self).live@,
            final(self).created == old(self).created + 1,
            final(self).deleted == old(self).deleted + 1,
            final(self).frame@.len() == old(self).frame@.len() + 4,
            final(self).frame@.subrange(0, old(self).frame@.len() as int) == old(self).frame@,
            is_create(
                final(self).frame@[old(self).frame@.len() as int],
                old(self).created,
                ProgramKind::Gradient,
            ),
            is_upload_colored(
                final(self).frame@[old(self).frame@.len() as int + 1],
                old(self).created,
                zip_colors(points@, colors@),
                DrawMode::Stream,
            ),
            is_draw(
                final(self).frame@[old(self).frame@.len() as int + 2],
                old(self).created,
                Shape::Points,
                points@.len() as int,
                ProgramKind::Gradient,
            ),
            is_delete(final(self).frame@[old(self).frame@.len() as int + 3], old(self).created),
    {
        let h = self.alloc_handle(ProgramKind::Gradient);
        let mut data: Vec<(Point, Color)> = Vec::new();
        let mut i: usize = 0;
        while i < points.len()
            invariant
                0 <= i <= points@.len(),
                points@.len() == colors@.len(),
                data@ == zip_colors(points@, colors@).subrange(0, i as int),
            decreases points@.len() - i,
        {
            data.push((points[i], colors[i]));
            proof {
                assert(data@ =~= zip_colors(points@, colors@).subrange(0, i as int + 1));
            }
            i = i + 1;
        }
        proof {
            assert(data@ =~= zip_colors(points@, colors@));
        }
        let count = points.len();
        self.push_command(
            DrawCommand::Upload {
                handle: h,
                data: VertexData::PositionsColors(data),
                mode: DrawMode::Stream,
            },
        );
        self.push_command(
            DrawCommand::Draw {
                handle: h,
                shape: Shape::Points,
                count,
                program: ProgramKind::Gradient,
            },
        );
        self.free_handle(h);
        proof {
            assert(final(self).live@ =~= old(self).live@);
            assert(final(self).frame@.subrange(0, old(self).frame@.len() as int) =~= old(
                self,
            ).frame@);
        }
    }

    /// Draw a line strip in one solid color through one ephemeral
    /// object; the uniform color is set before the draw call.
    pub fn draw_lines(&mut self, points: &Vec<Point>, color: Color)
        requires
            old(self).wf(),
            old(self).created < u64::MAX,
        ensures
            final(self).wf(),
            final(self).size == old(self).size,
            final(self).live@ == old(self).live@,
            final(self).created == old(self).created + 1,
            final(self).deleted == old(self).deleted + 1,
            final(self).frame@.len() == old(self).frame@.len() + 5,
            final(self).frame@.subrange(0, old(self).frame@.len() as int) == old(self).frame@,
            is_create(
                final(self).frame@[old(self).frame@.len() as int],
                old(self).created,
                ProgramKind::Solid,
            ),
            is_upload_positions(
                final(self).frame@[old(self).frame@.len() as int + 1],
                old(self).created,
                points@,
                DrawMode::Stream,
            ),
            final(self).frame@[old(self).frame@.len() as int + 2] == (DrawCommand::SetColor { color }),
            is_draw(
                final(self).frame@[old(self).frame@.len() as int + 3],
                old(self).created,
                Shape::LineStrip,
                points@.len() as int,
                ProgramKind::Solid,
            ),
            is_delete(final(self).frame@[old(self).frame@.len() as int + 4], old(self).created),
    {
        let h = self.alloc_handle(ProgramKind::Solid);
        let mut data: Vec<Point> = Vec::new();
        let mut i: usize = 0;
        while i < points.len()
            invariant
                0 <= i <= points@.len(),
                data@ == points@.subrange(0, i as int),
            decreases points@.len() - i,
        {
            data.push(points[i]);
            proof {
                assert(data@ =~= points@.subrange(0, i as int + 1));
            }
            i = i + 1;
        }
        proof {
            assert(data@ =~= points@);
        }
        let count = points.len();
        self.push_command(
            DrawCommand::Upload {
                handle: h,
                data: VertexData::Positions(data),
                mode: DrawMode::Stream,
            },
        );
        self.set_color(color);
        self.push_command(
            DrawCommand::Draw {
                handle: h,
                shape: Shape::LineStrip,
                count,
                program: ProgramKind::Solid,
            },
        );
        self.free_handle(h);
        proof {
            assert(final(self).live@ =~= old(self).live@);
            assert(final(self).frame@.subrange(0, old(self).frame@.len() as int) =~= old(
                self,
            ).frame@);
        }
    }

    /// Draw a line strip with per-vertex colors through one ephemeral
    /// object.
    pub fn draw_lines_gradient(&mut self, points: &Vec<(Point, Color)>)
        requires
            old(self).wf(),
            old(self).created < u64::MAX,
        ensures
            final(self).wf(),
            final(self).size == old(self).size,
            final(self).live@ == old(self).live@,
            final(self).created == old(self).created + 1,
            final(self).deleted == old(self).deleted + 1,
            final(self).frame@.len() == old(self).frame@.len() + 4,
            final(self).frame@.subrange(0, old(self).frame@.len() as int) == old(self).frame@,
            is_create(
                final(self).frame@[old(self).frame@.len() as int],
                old(self).created,
                ProgramKind::Gradient,
            ),
            is_upload_colored(
                final(self).frame@[old(self).frame@.len() as int + 1],
                old(self).created,
                points@,
                DrawMode::Stream,
            ),
            is_draw(
                final(self).frame@[old(self).frame@.len() as int + 2],
                old(self).created,
                Shape::LineStrip,
                points@.len() as int,
                ProgramKind::Gradient,
            ),
            is_delete(final(self).frame@[old(self).frame@.len() as int + 3], old(self).created),
    {
        let h = self.alloc_handle(ProgramKind::Gradient);
        let mut data: Vec<(Point, Color)> = Vec::new();
        let mut i: usize = 0;
        while i < points.len()
            invariant
                0 <= i <= points@.len(),
                data@ == points@.subrange(0, i as int),
            decreases points@.len() - i,
        {
            data.push(points[i]);
            proof {
                assert(data@ =~= points@.subrange(0, i as int + 1));
            }
            i = i + 1;
        }
        proof {
            assert(data@ =~= points@);
        }
        let count = points.len();
        self.push_command(
            DrawCommand::Upload {
                handle: h,
                data: VertexData::PositionsColors(data),
                mode: DrawMode::Stream,
            },
        );
        self.push_command(
            DrawCommand::Draw {
                handle: h,
                shape: Shape::LineStrip,
                count,
                program: ProgramKind::Gradient,
            },
        );
        self.free_handle(h);
        proof {
            assert(final(self).live@ =~= old(self).live@);
            assert(final(self).frame@.subrange(0, old(self).frame@.len() as int) =~= old(
                self,
            ).frame@);
        }
    }

    /// Draw the filled quadrangle `a b c d` in one solid color, as a
    /// triangle strip over the vertex order `a b d c`.
    pub fn draw_quadrangle(&mut self, a: Point, b: Point, c: Point, d: Point, color: Color)
        requires
            old(self).wf(),
            old(self).created < u64::MAX,
        ensures
            final(self).wf(),
            final(self).size == old(self).size,
            final(self).live@ == old(self).live@,
            final(self).created == old(self).created + 1,
            final(self).deleted == old(self).deleted + 1,
            final(self).frame@.len() == old(self).frame@.len() + 5,
            final(self).frame@.subrange(0, old(self).frame@.len() as int) == old(self).frame@,
            is_create(
                final(self).frame@[old(self).frame@.len() as int],
                old(self).created,
                ProgramKind::Solid,
            ),
            is_upload_positions(
                final(self).frame@[old(self).frame@.len() as int + 1],
                old(self).created,
                seq![a, b, d, c],
                DrawMode::Stream,
            ),
            final(self).frame@[old(self).frame@.len() as int + 2] == (DrawCommand::SetColor { color }),
            is_draw(
                final(self).frame@[old(self).frame@.len() as int + 3],
                old(self).created,
                Shape::TriangleStrip,
                4,
                ProgramKind::Solid,
            ),
            is_delete(final(self).frame@[old(self).frame@.len() as int + 4], old(self).created),
    {
        let h = self.alloc_handle(ProgramKind::Solid);
        let mut data: Vec<Point> = Vec::new();
        data.push(a);
        data.push(b);
        data.push(d);
        data.push(c);
        proof {
            assert(data@ =~= seq![a, b, d, c]);
        }
        self.push_command(
            DrawCommand::Upload {
                handle: h,
                data: VertexData::Positions(data),
                mode: DrawMode::Stream,
            },
        );
        self.set_color(color);
        self.push_command(
            DrawCommand::Draw {
                handle: h,
                shape: Shape::TriangleStrip,
                count: 4,
                program: ProgramKind::Solid,
            },
        );
        self.free_handle(h);
        proof {
            assert(final(self).live@ =~= old(self).live@);
            assert(final(self).frame@.subrange(0, old(self).frame@.len() as int) =~= old(
                self,
            ).frame@);
        }
    }

    /// Draw a filled axis-aligned rectangle: the quadrangle over the
    /// corners `min`, `(min.x, max.y)`, `max`, `(max.x, min.y)`.
    pub fn draw_rectangle(&mut self, bounds: Bounds, color: Color)
        requires
            old(self).wf(),
            old(self).created < u64::MAX,
        ensures
            final(self).wf(),
            final(self).size == old(self).size,
            final(self).live@ == old(self).live@,
            final(self).created == old(self).created + 1,
            final(self).deleted == old(self).deleted + 1,
            final(self).frame@.len() == old(self).frame@.len() + 5,
            final(self).frame@.subrange(0, old(self).frame@.len() as int) == old(self).frame@,
            vertices::rect_cmds_at(
                final(self).frame@,
                old(self).frame@.len() as int,
                old(self).created,
                bounds,
                color,
            ),
    {
        self.draw_quadrangle(bounds.min, bounds.min_max(), bounds.max, bounds.max_min(), color)
    }
}

} // verus!

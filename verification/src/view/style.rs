//! Visual styling of a drawable node: its sizing requests, the margins
//! outside and the padding inside its box, a background color, and a
//! rectangular border.

use super::util::{shrink_ok, spec_shrink, Indents, Length};
use crate::graphics::vertices::rect_cmds_at;
use crate::graphics::{Color, Context};
use crate::math::{Bounds, Point};
use vstd::prelude::*;

verus! {

/// A rectangular border: a stroke width in pixels and a color.
#[derive(Debug, Clone, Copy)]
pub struct Border {
    pub width: u32,
    pub color: Color,
}

/// Whether drawing a border of width `w` into `b` stays within `i32`
/// coordinates.
pub open spec fn border_draw_ok(w: int, b: Bounds) -> bool {
    &&& 0 <= w <= i32::MAX
    &&& i32::MIN <= b.min.x + w <= i32::MAX
    &&& i32::MIN <= b.min.y + w <= i32::MAX
    &&& i32::MIN <= b.max.x - w <= i32::MAX
    &&& i32::MIN <= b.max.y - w <= i32::MAX
}

/// The left bar of a border of width `w` around `b`.
pub open spec fn border_rect_left(w: int, b: Bounds) -> Bounds {
    Bounds { min: b.min, max: Point { x: (b.min.x + w) as i32, y: (b.max.y - w) as i32 } }
}

/// The bottom bar.
pub open spec fn border_rect_bottom(w: int, b: Bounds) -> Bounds {
    Bounds {
        min: Point { x: b.min.x, y: (b.max.y - w) as i32 },
        max: Point { x: (b.max.x - w) as i32, y: b.max.y },
    }
}

/// The right bar.
pub open spec fn border_rect_right(w: int, b: Bounds) -> Bounds {
    Bounds { min: Point { x: (b.max.x - w) as i32, y: (b.min.y + w) as i32 }, max: b.max }
}

/// The top bar.
pub open spec fn border_rect_top(w: int, b: Bounds) -> Bounds {
    Bounds {
        min: Point { x: (b.min.x + w) as i32, y: b.min.y },
        max: Point { x: b.max.x, y: (b.min.y + w) as i32 },
    }
}

/// Whether `frame[base .. base + 20]` is exactly one border draw of
/// width `w` around `b` in `color`: four ephemeral bars — left,
/// bottom, right, top — through the handles `h0 .. h0 + 3`.
pub open spec fn border_cmds_at(
    frame: Seq<crate::graphics::DrawCommand>,
    base: int,
    h0: u64,
    w: int,
    b: Bounds,
    color: Color,
) -> bool {
    &&& rect_cmds_at(frame, base, h0, border_rect_left(w, b), color)
    &&& rect_cmds_at(frame, base + 5, (h0 + 1) as u64, border_rect_bottom(w, b), color)
    &&& rect_cmds_at(frame, base + 10, (h0 + 2) as u64, border_rect_right(w, b), color)
    &&& rect_cmds_at(frame, base + 15, (h0 + 3) as u64, border_rect_top(w, b), color)
}

/// Whether `frame[base .. base + 25]` is exactly one style draw into
/// `b`: the background rectangle, inset by the border width, then the
/// border bars, through the handles `h0 .. h0 + 4`.
pub open spec fn style_cmds_at(
    frame: Seq<crate::graphics::DrawCommand>,
    base: int,
    h0: u64,
    style: Style,
    b: Bounds,
) -> bool {
    &&& rect_cmds_at(
        frame,
        base,
        h0,
        spec_shrink(Indents::equal_spec(style.border.width), b),
        style.backdround,
    )
    &&& border_cmds_at(
        frame,
        base + 5,
        (h0 + 1) as u64,
        style.border.width as int,
        b,
        style.border.color,
    )
}

/// A border recording is untouched by later frame extensions.
pub proof fn lemma_border_cmds_extend(
    f1: Seq<crate::graphics::DrawCommand>,
    f2: Seq<crate::graphics::DrawCommand>,
    base: int,
    h0: u64,
    w: int,
    b: Bounds,
    color: Color,
)
    requires
        border_cmds_at(f1, base, h0, w, b, color),
        0 <= base,
        base + 20 <= f1.len(),
        f1.len() <= f2.len(),
        f2.subrange(0, f1.len() as int) == f1,
    ensures
        border_cmds_at(f2, base, h0, w, b, color),
{
    crate::graphics::vertices::lemma_rect_cmds_extend(
        f1,
        f2,
        base,
        h0,
        border_rect_left(w, b),
        color,
    );
    crate::graphics::vertices::lemma_rect_cmds_extend(
        f1,
        f2,
        base + 5,
        (h0 + 1) as u64,
        border_rect_bottom(w, b),
        color,
    );
    crate::graphics::vertices::lemma_rect_cmds_extend(
        f1,
        f2,
        base + 10,
        (h0 + 2) as u64,
        border_rect_right(w, b),
        color,
    );
    crate::graphics::vertices::lemma_rect_cmds_extend(
        f1,
        f2,
        base + 15,
        (h0 + 3) as u64,
        border_rect_top(w, b),
        color,
    );
}

/// A style recording is untouched by later frame extensions.
pub proof fn lemma_style_cmds_extend(
    f1: Seq<crate::graphics::DrawCommand>,
    f2: Seq<crate::graphics::DrawCommand>,
    base: int,
    h0: u64,
    style: Style,
    b: Bounds,
)
    requires
        style_cmds_at(f1, base, h0, style, b),
        0 <= base,
        base + 25 <= f1.len(),
        f1.len() <= f2.len(),
        f2.subrange(0, f1.len() as int) == f1,
    ensures
        style_cmds_at(f2, base, h0, style, b),
{
    crate::graphics::vertices::lemma_rect_cmds_extend(
        f1,
        f2,
        base,
        h0,
        spec_shrink(Indents::equal_spec(style.border.width), b),
        style.backdround,
    );
    lemma_border_cmds_extend(
        f1,
        f2,
        base + 5,
        (h0 + 1) as u64,
        style.border.width as int,
        b,
        style.border.color,
    );
}

impl Border {
    /// Whether drawing this border into `bounds` stays within `i32`
    /// coordinates.
    pub fn draw_fits(&self, bounds: Bounds) -> (r: bool)
        ensures
            r == border_draw_ok(self.width as int, bounds),
    {
        let w = self.width as i64;
        let lo = i32::MIN as i64;
        let hi = i32::MAX as i64;
        w <= hi && lo <= (bounds.min.x as i64) + w && (bounds.min.x as i64) + w <= hi && lo <= (
        bounds.min.y as i64) + w && (bounds.min.y as i64) + w <= hi && lo <= (bounds.max.x as i64)
            - w && (bounds.max.x as i64) - w <= hi && lo <= (bounds.max.y as i64) - w && (
        bounds.max.y as i64) - w <= hi
    }

    pub fn new(width: u32, color: Color) -> (r: Self)
        ensures
            r == (Border { width, color }),
    {
        Self { width, color }
    }

    /// Draw the four bars of this border just inside `bounds`, each as
    /// one ephemeral rectangle: left, bottom, right, top.
    pub fn draw(&self, context: &mut Context, bounds: Bounds)
        requires
            old(context).wf(),
            old(context).created + 4 <= u64::MAX,
            border_draw_ok(self.width as int, bounds),
        ensures
            final(context).wf(),
            final(context).live@ == old(context).live@,
            final(context).created == old(context).created + 4,
            final(context).deleted == old(context).deleted + 4,
            final(context).size == old(context).size,
            final(context).frame@.len() == old(context).frame@.len() + 20,
            final(context).frame@.subrange(0, old(context).frame@.len() as int) == old(
                context,
            ).frame@,
            border_cmds_at(
                final(context).frame@,
                old(context).frame@.len() as int,
                old(context).created,
                self.width as int,
                bounds,
                self.color,
            ),
    {
        let width = self.width as i32;
        let ghost f0 = context.frame@;
        context.draw_rectangle(
            Bounds::new(bounds.min.x, bounds.min.y, bounds.min.x + width, bounds.max.y - width),
            self.color,
        );
        let ghost f1 = context.frame@;
        context.draw_rectangle(
            Bounds::new(bounds.min.x, bounds.max.y - width, bounds.max.x - width, bounds.max.y),
            self.color,
        );
        let ghost f2 = context.frame@;
        context.draw_rectangle(
            Bounds::new(bounds.max.x - width, bounds.min.y + width, bounds.max.x, bounds.max.y),
            self.color,
        );
        let ghost f3 = context.frame@;
        context.draw_rectangle(
            Bounds::new(bounds.min.x + width, bounds.min.y, bounds.max.x, bounds.min.y + width),
            self.color,
        );
        proof {
            assert forall|i: int| 0 <= i < f3.len() implies context.frame@[i] == f3[i] by {
                assert(context.frame@.subrange(0, f3.len() as int)[i] == f3[i]);
            }
            assert forall|i: int| 0 <= i < f2.len() implies f3[i] == f2[i] by {
                assert(f3.subrange(0, f2.len() as int)[i] == f2[i]);
            }
            assert forall|i: int| 0 <= i < f1.len() implies f2[i] == f1[i] by {
                assert(f2.subrange(0, f1.len() as int)[i] == f1[i]);
            }
            assert(final(context).frame@.subrange(0, old(context).frame@.len() as int) =~= old(
                context,
            ).frame@);
            assert(final(context).live@ =~= old(context).live@);
        }
    }
}

impl Default for Border {
    fn default() -> (r: Self)
        ensures
            r.width == 0,
            r.color == (Color { r: 0, g: 0, b: 0, a: 0 }),
    {
        Self::new(0, Color::transparent())
    }
}

/// The full visual configuration of a drawable node. It owns no GPU
/// resources and is copied freely.
#[derive(Debug, Clone, Copy)]
pub struct Style {
    pub width: Length,
    pub height: Length,
    pub margin: Indents,
    pub padding: Indents,
    pub backdround: Color,
    pub border: Border,
}

/// Whether drawing `style` into `b` stays within `i32` coordinates:
/// the background rectangle (inset by the border width) and the four
/// border bars must all be computable.
pub open spec fn style_draw_ok(style: Style, b: Bounds) -> bool {
    &&& shrink_ok(Indents::equal_spec(style.border.width), b)
    &&& border_draw_ok(style.border.width as int, b)
}

impl Style {
    /// Whether drawing this style into `bounds` stays within `i32`
    /// coordinates.
    pub fn draw_rectangle_fits(&self, bounds: Bounds) -> (r: bool)
        ensures
            r == style_draw_ok(*self, bounds),
    {
        Indents::equal(self.border.width).shrink_fits(bounds) && self.border.draw_fits(bounds)
    }

    /// Draw this style into `bounds`: the background rectangle, inset
    /// by the border width, then the border bars on top of it. Five
    /// ephemeral objects are created and deleted again.
    pub fn draw_rectangle(&self, context: &mut Context, bounds: Bounds)
        requires
            old(context).wf(),
            old(context).created + 5 <= u64::MAX,
            style_draw_ok(*self, bounds),
        ensures
            final(context).wf(),
            final(context).live@ == old(context).live@,
            final(context).created == old(context).created + 5,
            final(context).deleted == old(context).deleted + 5,
            final(context).size == old(context).size,
            final(context).frame@.len() == old(context).frame@.len() + 25,
            final(context).frame@.subrange(0, old(context).frame@.len() as int) == old(
                context,
            ).frame@,
            style_cmds_at(
                final(context).frame@,
                old(context).frame@.len() as int,
                old(context).created,
                *self,
                bounds,
            ),
    {
        let ghost f0 = context.frame@;
        context.draw_rectangle(Indents::equal(self.border.width).shrink(bounds), self.backdround);
        let ghost f1 = context.frame@;
        self.border.draw(context, bounds);
        proof {
            assert forall|i: int| 0 <= i < f1.len() implies context.frame@[i] == f1[i] by {
                assert(context.frame@.subrange(0, f1.len() as int)[i] == f1[i]);
            }
            assert(final(context).frame@.subrange(0, old(context).frame@.len() as int) =~= old(
                context,
            ).frame@);
        }
    }
}

impl Default for Style {
    fn default() -> (r: Self)
        ensures
            r.width == Length::Fill,
            r.height == Length::Fill,
            r.margin == (Indents { left: 0, top: 0, right: 0, bottom: 0 }),
            r.padding == (Indents { left: 0, top: 0, right: 0, bottom: 0 }),
            r.backdround == (Color { r: 0, g: 0, b: 0, a: 0 }),
            r.border.width == 0,
            r.border.color == (Color { r: 0, g: 0, b: 0, a: 0 }),
    {
        Self {
            width: Length::Fill,
            height: Length::Fill,
            margin: Indents::zero(),
            padding: Indents::zero(),
            backdround: Color::transparent(),
            border: Border::new(0, Color::transparent()),
        }
    }
}

} // verus!

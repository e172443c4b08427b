use show::graphics::{Color, DrawCommand, DrawMode, PointArray, PointColorArray, Polyline, PolylineGradient, Shape};
use show::math::{Bounds, Point};
use show::view::{Border, Column, Indents, Length, Row, Style, View};
use show::{Context, Drawer};

fn plain_style(width: Length, height: Length) -> Style {
    Style {
        width,
        height,
        margin: Indents::zero(),
        padding: Indents::zero(),
        backdround: Color::transparent(),
        border: Border::new(0, Color::transparent()),
    }
}

fn leaf() -> View<()> {
    View::leaf(plain_style(Length::Fill, Length::Fill), None)
}

#[test]
fn compile_creates_one_object_per_leaf_and_delete_pairs_them() {
    let mut context = Context::new(Point::new(100, 100));
    let view: View<()> = Column::new(
        plain_style(Length::Fill, Length::Fill),
        vec![
            leaf(),
            Row::new(plain_style(Length::Fill, Length::Fill), vec![leaf(), leaf()]),
            leaf(),
        ],
    );
    assert_eq!(view.count_objects(), 4);
    let drawer = view.new_drawer(&mut context);
    assert_eq!(context.created, 4);
    assert_eq!(context.deleted, 0);
    drawer.delete(&mut context);
    // Exactly as many deletions as compilation created: nothing
    // leaked, nothing double-freed.
    assert_eq!(context.created, 4);
    assert_eq!(context.deleted, 4);
}

#[test]
fn an_empty_container_owns_no_objects() {
    let mut context = Context::new(Point::new(100, 100));
    let view: View<()> = Column::new(plain_style(Length::Fill, Length::Fill), vec![]);
    assert_eq!(view.count_objects(), 0);
    let drawer = view.new_drawer(&mut context);
    assert_eq!((context.created, context.deleted), (0, 0));
    drawer.delete(&mut context);
    assert_eq!((context.created, context.deleted), (0, 0));
}

#[test]
fn draw_leaves_the_object_books_balanced() {
    let mut context = Context::new(Point::new(100, 100));
    let mut style = plain_style(Length::Fill, Length::Fill);
    style.backdround = Color::hex("#4488cc");
    style.border = Border::new(2, Color::white());
    let view: View<()> = Column::new(style, vec![leaf(), leaf()]);
    let mut drawer = view.new_drawer(&mut context);
    drawer.set_bounds(&mut context, Bounds::from_size(Point::new(100, 100)));
    let live_before = context.created - context.deleted;
    drawer.draw(&mut context);
    assert_eq!(context.created - context.deleted, live_before);
    drawer.draw(&mut context);
    assert_eq!(context.created - context.deleted, live_before);
    drawer.delete(&mut context);
    assert_eq!(context.created, context.deleted);
}

#[test]
fn ephemeral_rectangle_records_five_commands() {
    let mut context = Context::new(Point::new(100, 100));
    context.draw_rectangle(Bounds::new(0, 0, 10, 10), Color::white());
    let frame = context.take_frame();
    assert_eq!(frame.len(), 5);
    assert!(matches!(frame[0], DrawCommand::Create { .. }));
    match &frame[1] {
        DrawCommand::Upload { data, mode, .. } => {
            assert!(matches!(mode, DrawMode::Stream));
            match data {
                show::graphics::VertexData::Positions(v) => {
                    assert_eq!(
                        v.as_slice(),
                        &[
                            Point::new(0, 0),
                            Point::new(0, 10),
                            Point::new(10, 0),
                            Point::new(10, 10),
                        ],
                    );
                },
                _ => panic!("a solid rectangle uploads bare positions"),
            }
        },
        _ => panic!("the second command must be the upload"),
    }
    assert!(matches!(frame[2], DrawCommand::SetColor { .. }));
    match frame[3] {
        DrawCommand::Draw { shape, count, .. } => {
            assert!(matches!(shape, Shape::TriangleStrip));
            assert_eq!(count, 4);
        },
        _ => panic!("the fourth command must be the draw call"),
    }
    assert!(matches!(frame[4], DrawCommand::Delete { .. }));
    // The frame was taken: the next one starts empty.
    assert_eq!(context.take_frame().len(), 0);
}

#[test]
fn border_draws_four_bars() {
    let mut context = Context::new(Point::new(100, 100));
    let border = Border::new(3, Color::black());
    border.draw(&mut context, Bounds::new(0, 0, 50, 40));
    let frame = context.take_frame();
    assert_eq!(frame.len(), 20);
    let creates = frame.iter().filter(|c| matches!(c, DrawCommand::Create { .. })).count();
    let deletes = frame.iter().filter(|c| matches!(c, DrawCommand::Delete { .. })).count();
    assert_eq!(creates, 4);
    assert_eq!(deletes, 4);
    assert_eq!(context.created, context.deleted);
}

#[test]
fn point_arrays_retain_until_deleted() {
    let mut context = Context::new(Point::new(100, 100));
    let mut object = PointArray::new(&mut context);
    assert_eq!(context.created, 1);
    object.buffer_data(
        &mut context,
        vec![Point::new(1, 2), Point::new(3, 4)],
        DrawMode::Dynamic,
    );
    object.draw(&mut context, Shape::Lines);
    object.draw(&mut context, Shape::Points);
    assert_eq!(context.deleted, 0);
    object.delete(&mut context);
    assert_eq!((context.created, context.deleted), (1, 1));
}

#[test]
fn draw_once_is_create_upload_draw_delete() {
    let mut context = Context::new(Point::new(100, 100));
    PointColorArray::draw_once(
        &mut context,
        vec![(Point::new(1, 1), Color::white()), (Point::new(2, 2), Color::black())],
        Shape::LineStrip,
    );
    assert_eq!((context.created, context.deleted), (1, 1));
    let frame = context.take_frame();
    assert_eq!(frame.len(), 4);
    PointArray::draw_once(&mut context, vec![Point::new(0, 0)], Shape::Points);
    assert_eq!((context.created, context.deleted), (2, 2));
}

#[test]
fn ephemeral_point_and_line_draws_balance_the_books() {
    let mut context = Context::new(Point::new(100, 100));
    context.draw_points(
        &vec![Point::new(1, 1), Point::new(2, 2)],
        &vec![Color::white(), Color::black()],
    );
    context.draw_lines(&vec![Point::new(0, 0), Point::new(9, 9)], Color::white());
    context.draw_lines_gradient(&vec![(Point::new(0, 0), Color::white())]);
    context.draw_quadrangle(
        Point::new(0, 0),
        Point::new(0, 1),
        Point::new(1, 1),
        Point::new(1, 0),
        Color::black(),
    );
    assert_eq!(context.created, 4);
    assert_eq!(context.deleted, 4);
    // Points draw with per-vertex colors: 4 commands; lines add a
    // uniform color change: 5.
    assert_eq!(context.take_frame().len(), 4 + 5 + 4 + 5);
}

#[test]
fn set_bounds_re_uploads_leaf_corners() {
    let mut context = Context::new(Point::new(100, 100));
    let view: View<()> = leaf();
    let mut drawer = view.new_drawer(&mut context);
    context.take_frame();
    drawer.set_bounds(&mut context, Bounds::from_size(Point::new(80, 60)));
    match &drawer {
        Drawer::Leaf(l) => {
            assert_eq!(l.bounds, Bounds::new(0, 0, 80, 60));
            assert_eq!(l.object.count, 4);
        },
        Drawer::Common(_) => panic!("a leaf view compiles to a leaf drawer"),
    }
    let frame = context.take_frame();
    assert_eq!(frame.len(), 1);
    match &frame[0] {
        DrawCommand::Upload { data, mode, .. } => {
            assert!(matches!(mode, DrawMode::Dynamic));
            match data {
                show::graphics::VertexData::Positions(v) => assert_eq!(v.len(), 4),
                _ => panic!("leaf background uploads bare positions"),
            }
        },
        _ => panic!("layout records exactly one upload per leaf"),
    }
    drawer.delete(&mut context);
}

#[test]
fn polylines_draw_line_strips() {
    let mut context = Context::new(Point::new(100, 100));
    let mut line = Polyline::new(&mut context);
    line.store(&mut context, vec![Point::new(0, 0), Point::new(5, 5)], DrawMode::Dynamic);
    line.draw(&mut context);
    line.delete(&mut context);
    assert_eq!((context.created, context.deleted), (1, 1));
    let frame = context.take_frame();
    assert_eq!(frame.len(), 4);
    match frame[2] {
        DrawCommand::Draw { shape, count, .. } => {
            assert!(matches!(shape, Shape::LineStrip));
            assert_eq!(count, 2);
        },
        _ => panic!("a polyline draw call comes third"),
    }
    PolylineGradient::stream(
        &mut context,
        vec![(Point::new(0, 0), Color::white()), (Point::new(9, 9), Color::black())],
    );
    assert_eq!((context.created, context.deleted), (2, 2));
}

#[test]
fn a_leaf_draw_records_its_background_then_its_border() {
    let mut context = Context::new(Point::new(100, 100));
    let mut style = plain_style(Length::Fill, Length::Fill);
    style.backdround = Color::hex("#4488cc");
    style.border = Border::new(2, Color::white());
    let view: View<()> = View::leaf(style, None);
    let mut drawer = view.new_drawer(&mut context);
    drawer.set_bounds(&mut context, Bounds::from_size(Point::new(100, 100)));
    context.take_frame();
    drawer.draw(&mut context);
    let frame = context.take_frame();
    // The background color change, the retained quad's draw call, and
    // the 20 commands of the four border bars.
    assert_eq!(frame.len(), 22);
    match frame[0] {
        DrawCommand::SetColor { color } => assert_eq!(color, Color::hex("#4488cc")),
        _ => panic!("a leaf draw starts with its background color"),
    }
    match frame[1] {
        DrawCommand::Draw { shape, count, .. } => {
            assert!(matches!(shape, Shape::TriangleStrip));
            assert_eq!(count, 4);
        },
        _ => panic!("the retained quad is drawn second"),
    }
    drawer.delete(&mut context);
}

#[test]
fn a_container_draw_records_its_style_then_each_child() {
    let mut context = Context::new(Point::new(100, 100));
    let mut style = plain_style(Length::Fill, Length::Fill);
    style.backdround = Color::black();
    style.border = Border::new(1, Color::white());
    let view: View<()> = Column::new(style, vec![leaf(), leaf()]);
    let mut drawer = view.new_drawer(&mut context);
    drawer.set_bounds(&mut context, Bounds::from_size(Point::new(100, 100)));
    context.take_frame();
    drawer.draw(&mut context);
    let frame = context.take_frame();
    // 25 commands for the container's style draw, then 22 per leaf:
    // its color change and quad draw, and its four border bars — a
    // zero-width border is still drawn, as ever.
    assert_eq!(frame.len(), 25 + 22 + 22);
    assert!(matches!(frame[0], DrawCommand::Create { .. }));
    assert!(matches!(frame[25], DrawCommand::SetColor { .. }));
    assert!(matches!(frame[26], DrawCommand::Draw { .. }));
    assert!(matches!(frame[47], DrawCommand::SetColor { .. }));
    assert!(matches!(frame[48], DrawCommand::Draw { .. }));
    drawer.delete(&mut context);
}

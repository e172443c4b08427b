use show::graphics::Color;
use show::math::{Bounds, Point};
use show::view::{Border, Column, Indents, Length, Orientation, Row, Style, View};
use show::{Context, Drawer};

fn plain_style(width: Length, height: Length) -> Style {
    Style {
        width,
        height,
        margin: Indents::zero(),
        padding: Indents::zero(),
        backdround: Color::transparent(),
        border: Border::new(0, Color::transparent()),
    }
}

fn leaf(width: Length, height: Length) -> View<()> {
    View::leaf(plain_style(width, height), None)
}

fn child_bounds(drawer: &Drawer<()>, i: usize) -> Bounds {
    match drawer {
        Drawer::Common(c) => match &c.children[i] {
            Drawer::Common(cc) => cc.bounds,
            Drawer::Leaf(l) => l.bounds,
        },
        Drawer::Leaf(l) => l.bounds,
    }
}

#[test]
fn pixels_resolve_fixed_fill_and_weighted_requests() {
    assert_eq!(Length::Pixels(50).pixels(300, 3), 50);
    assert_eq!(Length::Fill.pixels(300, 3), 100);
    assert_eq!(Length::FillPortion(2).pixels(300, 3), 200);
    assert_eq!(Length::Fill.pixels(301, 3), 100);
    assert_eq!(Length::FillPortion(3).pixels(100, 4), 75);
}

#[test]
fn count_portions_weighs_fill_one_weighted_w_and_pixels_zero() {
    let lengths = vec![Length::Fill, Length::FillPortion(2), Length::Pixels(50)];
    assert_eq!(Length::count_portions(&lengths), 3);
    let none: Vec<Length> = vec![Length::Pixels(1), Length::Pixels(2)];
    assert_eq!(Length::count_portions(&none), 0);
}

#[test]
fn fill_portion_partition_splits_the_whole_parent_extent() {
    // A horizontal container of total width 300 with three children:
    // Fill, FillPortion(2) and Pixels(50). The portion sum is 3; the
    // weighted children split the whole 300 pixels, and the fixed
    // child keeps its 50 pixels even though the total then exceeds
    // the container.
    let mut context = Context::new(Point::new(300, 100));
    let view = Row::new(
        plain_style(Length::Fill, Length::Fill),
        vec![
            leaf(Length::Fill, Length::Fill),
            leaf(Length::FillPortion(2), Length::Fill),
            leaf(Length::Pixels(50), Length::Fill),
        ],
    );
    let mut drawer = view.new_drawer(&mut context);
    drawer.set_bounds(&mut context, Bounds::from_size(Point::new(300, 100)));

    let b0 = child_bounds(&drawer, 0);
    let b1 = child_bounds(&drawer, 1);
    let b2 = child_bounds(&drawer, 2);
    assert_eq!(b0.width(), 100);
    assert_eq!(b1.width(), 200);
    assert_eq!(b2.width(), 50);
    assert_eq!(b0.min.x, 0);
    assert_eq!(b1.min.x, 100);
    assert_eq!(b2.min.x, 300);
    // The children legitimately overshoot the container's right edge.
    assert_eq!(b2.max.x, 350);
    assert!(b2.max.x > 300);
    // Cross axis: every child receives the full parent extent.
    assert_eq!(b0.height(), 100);
    assert_eq!(b1.height(), 100);
    assert_eq!(b2.height(), 100);
}

#[test]
fn resize_propagates_to_fill_children() {
    // Two Fill children stacked vertically in a 400 px tall window;
    // after a resize to 800 px each child must be exactly 400 px tall.
    let mut context = Context::new(Point::new(600, 400));
    let view = Column::new(
        plain_style(Length::Fill, Length::Fill),
        vec![leaf(Length::Fill, Length::Fill), leaf(Length::Fill, Length::Fill)],
    );
    let mut drawer = view.new_drawer(&mut context);
    drawer.set_bounds(&mut context, Bounds::from_size(Point::new(600, 400)));
    assert_eq!(child_bounds(&drawer, 0).height(), 200);
    assert_eq!(child_bounds(&drawer, 1).height(), 200);

    context.set_size(Point::new(600, 800));
    drawer.set_bounds(&mut context, Bounds::from_size(Point::new(600, 800)));
    assert_eq!(child_bounds(&drawer, 0).height(), 400);
    assert_eq!(child_bounds(&drawer, 1).height(), 400);
    assert_eq!(child_bounds(&drawer, 0).min.y, 0);
    assert_eq!(child_bounds(&drawer, 1).min.y, 400);

    // A draw after the resize reflects the new bounds, not stale ones.
    drawer.draw(&mut context);
    assert_eq!(child_bounds(&drawer, 0).height(), 400);
    assert_eq!(child_bounds(&drawer, 1).height(), 400);
}

#[test]
fn draw_does_not_recompute_layout() {
    let mut context = Context::new(Point::new(200, 200));
    let view = Column::new(
        plain_style(Length::Fill, Length::Fill),
        vec![leaf(Length::Fill, Length::Fill), leaf(Length::Pixels(30), Length::Pixels(40))],
    );
    let mut drawer = view.new_drawer(&mut context);
    drawer.set_bounds(&mut context, Bounds::from_size(Point::new(200, 200)));
    let before = (child_bounds(&drawer, 0), child_bounds(&drawer, 1));
    drawer.draw(&mut context);
    drawer.draw(&mut context);
    let after = (child_bounds(&drawer, 0), child_bounds(&drawer, 1));
    assert_eq!(before, after);
}

#[test]
fn margins_are_outside_padding_is_inside() {
    // The container's margin shrinks its own box; its padding shrinks
    // the box its children are laid out in; a child's margin shrinks
    // the child's own allocated rectangle.
    let mut context = Context::new(Point::new(100, 100));
    let mut child_style = plain_style(Length::Fill, Length::Fill);
    child_style.margin = Indents::equal(5);
    let mut root_style = plain_style(Length::Fill, Length::Fill);
    root_style.margin = Indents::new(1, 2, 3, 4);
    root_style.padding = Indents::equal(10);
    let view = Column::new(root_style, vec![View::<()>::leaf(child_style, None)]);
    let mut drawer = view.new_drawer(&mut context);
    drawer.set_bounds(&mut context, Bounds::from_size(Point::new(100, 100)));
    match &drawer {
        Drawer::Common(c) => {
            assert_eq!(c.bounds.min, Point::new(1, 2));
            assert_eq!(c.bounds.max, Point::new(97, 96));
        },
        Drawer::Leaf(_) => panic!("root must be a container"),
    }
    // Content box: (11, 12) to (87, 86), i.e. 76 x 74; the child fills
    // it and then loses its own 5 px margin on every side.
    let b = child_bounds(&drawer, 0);
    assert_eq!(b.min, Point::new(16, 17));
    assert_eq!(b.max, Point::new(82, 81));
}

#[test]
fn shrink_by_zero_and_shrink_grow_round_trip() {
    let b = Bounds::new(-7, 3, 40, 90);
    assert_eq!(Indents::zero().shrink(b), b);
    let ind = Indents::new(1, 2, 3, 4);
    assert_eq!(ind.grow(ind.shrink(b)), b);
    assert_eq!(ind.shrink(ind.grow(b)), b);
    let shrunk = ind.shrink(b);
    assert_eq!(shrunk.min, Point::new(-6, 5));
    assert_eq!(shrunk.max, Point::new(37, 86));
}

#[test]
fn indents_constructors() {
    assert_eq!(Indents::equal(3), Indents::new(3, 3, 3, 3));
    assert_eq!(Indents::axis(7, 9), Indents::new(7, 9, 7, 9));
    assert_eq!(Indents::zero(), Indents::new(0, 0, 0, 0));
    assert_eq!(Indents::default(), Indents::zero());
    assert_eq!(Length::default(), Length::Fill);
    assert_eq!(Orientation::Vertical, Orientation::Vertical);
}

#[test]
fn degenerate_bounds_leave_the_tree_unchanged() {
    // A window smaller than the container's margins would produce a
    // negative content extent; layout refuses it and leaves the old
    // bounds in place.
    let mut context = Context::new(Point::new(10, 10));
    let mut root_style = plain_style(Length::Fill, Length::Fill);
    root_style.margin = Indents::equal(50);
    let view = Column::new(root_style, vec![leaf(Length::Fill, Length::Fill)]);
    let mut drawer = view.new_drawer(&mut context);
    drawer.set_bounds(&mut context, Bounds::from_size(Point::new(10, 10)));
    match &drawer {
        Drawer::Common(c) => assert_eq!(c.bounds, Bounds::zero()),
        Drawer::Leaf(_) => panic!("root must be a container"),
    }
}

use show::event::EventKind;
use show::graphics::Color;
use show::math::{Bounds, Point};
use show::program::step_event;
use show::view::{Border, Indents, Length, Style, View};
use show::{Action, Command, Context, Drawer, Event, Model, MouseButton, Size, Subscriptions};

fn clickable_style() -> Style {
    Style {
        width: Length::Fill,
        height: Length::Fill,
        margin: Indents::zero(),
        padding: Indents::zero(),
        backdround: Color::hex("#4488cc"),
        border: Border::new(1, Color::white()),
    }
}

#[derive(Clone, Copy, PartialEq, Eq, Debug)]
enum Message {
    ButtonClick,
}

struct App {
    clicks: u32,
}

impl Model for App {
    type Flags = ();
    type Message = Message;

    fn init(_flags: ()) -> (Self, Command) {
        (App { clicks: 0 }, Command::Nothing)
    }

    fn subscriptions() -> Subscriptions<Message> {
        Subscriptions::empty()
    }

    fn update(&mut self, _message: Message) -> Command {
        self.clicks += 1;
        Command::Update
    }

    fn view(&self) -> View<Message> {
        View::leaf(clickable_style(), Some(Message::ButtonClick))
    }
}

#[test]
fn a_leaf_answers_a_click_inside_its_bounds() {
    let mut context = Context::new(Point::new(100, 100));
    let (model, _) = App::init(());
    let mut drawer = model.view().new_drawer(&mut context);
    drawer.set_bounds(&mut context, Bounds::from_size(Point::new(100, 100)));

    assert_eq!(drawer.process(Event::CursorPos(50, 50)), None);
    assert_eq!(
        drawer.process(Event::MouseButton(MouseButton::Left, Action::Press)),
        Some(Message::ButtonClick),
    );
    // Release and other buttons answer nothing.
    assert_eq!(drawer.process(Event::MouseButton(MouseButton::Left, Action::Release)), None);
    assert_eq!(drawer.process(Event::MouseButton(MouseButton::Right, Action::Press)), None);
    drawer.delete(&mut context);
}

#[test]
fn a_click_on_the_max_edge_does_not_fire() {
    // Half-open containment: a click exactly on the max edge belongs
    // to the neighbour, never to both siblings.
    let mut context = Context::new(Point::new(100, 100));
    let (model, _) = App::init(());
    let mut drawer = model.view().new_drawer(&mut context);
    drawer.set_bounds(&mut context, Bounds::from_size(Point::new(100, 100)));
    assert_eq!(drawer.process(Event::CursorPos(100, 50)), None);
    assert_eq!(drawer.process(Event::MouseButton(MouseButton::Left, Action::Press)), None);
    assert_eq!(drawer.process(Event::CursorPos(99, 99)), None);
    assert_eq!(
        drawer.process(Event::MouseButton(MouseButton::Left, Action::Press)),
        Some(Message::ButtonClick),
    );
    drawer.delete(&mut context);
}

#[test]
fn containers_do_not_route_events_to_children() {
    let mut context = Context::new(Point::new(100, 100));
    let view: View<Message> = show::view::Column::new(
        clickable_style(),
        vec![View::leaf(clickable_style(), Some(Message::ButtonClick))],
    );
    let mut drawer = view.new_drawer(&mut context);
    drawer.set_bounds(&mut context, Bounds::from_size(Point::new(100, 100)));
    assert_eq!(drawer.process(Event::CursorPos(50, 50)), None);
    assert_eq!(drawer.process(Event::MouseButton(MouseButton::Left, Action::Press)), None);
    drawer.delete(&mut context);
}

#[test]
fn step_event_resizes_and_lays_out() {
    let mut context = Context::new(Point::new(100, 100));
    let (mut model, _) = App::init(());
    let mut drawer = model.view().new_drawer(&mut context);
    drawer.set_bounds(&mut context, Bounds::from_size(Point::new(100, 100)));

    let rebuilt = step_event(&mut model, &mut drawer, &mut context, Event::FramebufferSize(80, 60));
    assert!(!rebuilt);
    assert_eq!(context.size, Point::new(80, 60));
    match &drawer {
        Drawer::Leaf(l) => assert_eq!(l.bounds, Bounds::new(0, 0, 80, 60)),
        Drawer::Common(_) => panic!("the app's view is a single leaf"),
    }
    drawer.delete(&mut context);
}

#[test]
fn step_event_rebuilds_the_tree_on_an_update_command() {
    let mut context = Context::new(Point::new(100, 100));
    let (mut model, _) = App::init(());
    let mut drawer = model.view().new_drawer(&mut context);
    drawer.set_bounds(&mut context, Bounds::from_size(Point::new(100, 100)));
    assert_eq!((context.created, context.deleted), (1, 0));

    let _ = step_event(&mut model, &mut drawer, &mut context, Event::CursorPos(10, 10));
    let rebuilt = step_event(
        &mut model,
        &mut drawer,
        &mut context,
        Event::MouseButton(MouseButton::Left, Action::Press),
    );
    assert!(rebuilt);
    assert_eq!(model.clicks, 1);
    // The old tree's one object was deleted before the new tree's one
    // object was created.
    assert_eq!((context.created, context.deleted), (2, 1));
    drawer.delete(&mut context);
    assert_eq!(context.created, context.deleted);
}

#[test]
fn subscriptions_filter_by_event_kind_in_order() {
    let subs = Subscriptions::combine(vec![
        Subscriptions::empty(),
        Subscriptions::new(EventKind::Key, 1u32),
        Subscriptions::new(EventKind::Char, 2u32),
        Subscriptions::new(EventKind::Key, 3u32),
    ]);
    assert_eq!(subs.filters.len(), 3);
    assert_eq!(subs.filter(Event::Key(10, Action::Press)), Some(1));
    assert_eq!(subs.filter(Event::Char(65)), Some(2));
    assert_eq!(subs.filter(Event::CursorPos(0, 0)), None);
    let empty: Subscriptions<u32> = Subscriptions::default();
    assert_eq!(empty.filter(Event::Char(65)), None);
}

#[test]
fn default_window_size() {
    assert_eq!(Size::default(), Size::Pixels(600, 400));
    assert!(matches!(Size::Max, Size::Max));
}

#[test]
fn step_event_keeps_the_size_on_other_events() {
    let mut context = Context::new(Point::new(100, 100));
    let (mut model, _) = App::init(());
    let mut drawer = model.view().new_drawer(&mut context);
    drawer.set_bounds(&mut context, Bounds::from_size(Point::new(100, 100)));
    let _ = step_event(&mut model, &mut drawer, &mut context, Event::Char(65));
    assert_eq!(context.size, Point::new(100, 100));
    drawer.delete(&mut context);
}

use runty8::event::{Event, InputEvent, MouseEvent};
use runty8::ui::{DispatchEvent, DrawContext, DrawFn, Element, Paint, Tree, Widget};

#[derive(Clone, Copy, Debug, PartialEq, Eq)]
enum Msg {
    Clicked(u8),
    Seen(u8),
}

/// Paints its id into the next free slot of the surface, counting slots in byte 0.
struct Recorder {
    id: u8,
    events_seen: u32,
    report: bool,
}

fn log_paint(id: u8, draw: &mut DrawContext) {
    let next = draw.get(0);
    draw.set(1 + next as usize, id);
    draw.set(0, next + 1);
}

fn painted_ids(draw: &DrawContext) -> Vec<u8> {
    let n = draw.get(0) as usize;
    (1..=n).map(|i| draw.get(i)).collect()
}

impl Widget for Recorder {
    type Msg = Msg;

    fn on_event(&mut self, _event: Event, _cursor: (i32, i32), dispatch: &mut DispatchEvent<Msg>) {
        self.events_seen += 1;
        if self.report {
            dispatch.call(Msg::Seen(self.id));
            dispatch.call(Msg::Seen(self.id + 100));
        }
    }

    fn draw(&self, draw: &mut DrawContext) {
        log_paint(self.id * 10 + self.events_seen as u8, draw);
    }
}

struct Button {
    id: u8,
    x: i32,
    y: i32,
    width: i32,
    height: i32,
}

impl Widget for Button {
    type Msg = Msg;

    fn on_event(&mut self, event: Event, cursor: (i32, i32), dispatch: &mut DispatchEvent<Msg>) {
        let inside = cursor.0 >= self.x
            && cursor.0 < self.x + self.width
            && cursor.1 >= self.y
            && cursor.1 < self.y + self.height;
        if inside && event == Event::Input(InputEvent::Mouse(MouseEvent::Down)) {
            dispatch.call(Msg::Clicked(self.id));
        }
    }

    fn draw(&self, draw: &mut DrawContext) {
        log_paint(self.id, draw);
    }
}

struct Stamp(u8);

impl Paint for Stamp {
    fn paint(&self, draw: &mut DrawContext) {
        log_paint(self.0, draw);
    }
}

fn recorder(id: u8, report: bool) -> Element<Recorder> {
    Element::new(Recorder { id, events_seen: 0, report })
}

fn dispatch(tree: &mut Tree<Recorder>, event: Event) -> Vec<Msg> {
    let mut d = DispatchEvent::new(Vec::new());
    tree.on_event(event, (0, 0), &mut d);
    d.into_messages()
}

const CLICK: Event = Event::Input(InputEvent::Mouse(MouseEvent::Down));

#[test]
fn draw_paints_children_in_order() {
    let tree = Tree::new().push(recorder(3, false)).push(recorder(1, false)).push(recorder(2, false));
    let mut draw = DrawContext::new();
    tree.draw(&mut draw);
    assert_eq!(painted_ids(&draw), vec![30, 10, 20]);
}

#[test]
fn every_child_sees_each_event_once() {
    let mut tree = Tree::with_children(vec![recorder(1, true), recorder(2, false), recorder(3, true)]);
    let first = dispatch(&mut tree, CLICK);
    assert_eq!(first.len(), 4);
    dispatch(&mut tree, Event::Tick { delta_millis: 33 });
    let mut draw = DrawContext::new();
    tree.draw(&mut draw);
    assert_eq!(painted_ids(&draw), vec![12, 22, 32]);
}

#[test]
fn element_gives_access_to_its_widget() {
    let mut only = Element::new(Recorder { id: 9, events_seen: 0, report: true });
    let mut d = DispatchEvent::new(Vec::new());
    only.as_widget_mut().on_event(CLICK, (0, 0), &mut d);
    only.as_widget_mut().on_event(CLICK, (0, 0), &mut d);
    assert_eq!(only.as_widget().events_seen, 2);
    assert_eq!(d.into_messages().len(), 4);
}

#[test]
fn messages_keep_call_order() {
    let mut tree = Tree::new().push(recorder(1, true)).push(recorder(2, false)).push(recorder(3, true));
    let msgs = dispatch(&mut tree, CLICK);
    assert_eq!(msgs, vec![Msg::Seen(1), Msg::Seen(101), Msg::Seen(3), Msg::Seen(103)]);
}

#[test]
fn dispatch_appends_after_earlier_messages() {
    let mut d = DispatchEvent::new(vec![Msg::Clicked(7)]);
    d.call(Msg::Seen(1));
    d.call(Msg::Clicked(2));
    assert_eq!(d.into_messages(), vec![Msg::Clicked(7), Msg::Seen(1), Msg::Clicked(2)]);
}

#[test]
fn draw_fn_ignores_events() {
    let mut w: DrawFn<Msg, Stamp> = DrawFn::new(Stamp(5));
    let mut d = DispatchEvent::new(Vec::new());
    for event in [CLICK, Event::WindowClosed, Event::Tick { delta_millis: 1 }] {
        w.on_event(event, (1, 2), &mut d);
    }
    assert!(d.into_messages().is_empty());
    let mut draw = DrawContext::new();
    w.draw(&mut draw);
    w.draw(&mut draw);
    assert_eq!(painted_ids(&draw), vec![5, 5]);
}

#[test]
fn from_children_matches_push() {
    let listed = Element::from_children(vec![recorder(1, true), recorder(2, true)]);
    let pushed = Tree::new().push(recorder(1, true)).push(recorder(2, true));
    let mut listed = listed;
    let mut pushed = Element::new(pushed);
    let mut d1 = DispatchEvent::new(Vec::new());
    let mut d2 = DispatchEvent::new(Vec::new());
    listed.on_event(CLICK, (3, 3), &mut d1);
    pushed.on_event(CLICK, (3, 3), &mut d2);
    assert_eq!(d1.into_messages(), d2.into_messages());
    let mut draw1 = DrawContext::new();
    let mut draw2 = DrawContext::new();
    listed.draw(&mut draw1);
    pushed.draw(&mut draw2);
    assert_eq!(draw1.buffer(), draw2.buffer());
    assert_eq!(painted_ids(&draw1), vec![11, 21]);
}

#[test]
fn click_in_first_button_reports_only_it() {
    let a = Button { id: 1, x: 0, y: 0, width: 20, height: 10 };
    let b = Button { id: 2, x: 30, y: 0, width: 20, height: 10 };
    let mut tree = Tree::with_children(vec![Element::new(a), Element::new(b)]);
    let mut d = DispatchEvent::new(Vec::new());
    tree.on_event(CLICK, (5, 5), &mut d);
    assert_eq!(d.into_messages(), vec![Msg::Clicked(1)]);
}

#[test]
fn empty_tree_reports_and_paints_nothing() {
    let mut tree: Tree<Recorder> = Tree::new();
    assert!(dispatch(&mut tree, CLICK).is_empty());
    let mut draw = DrawContext::new();
    tree.draw(&mut draw);
    assert_eq!(draw.buffer(), DrawContext::new().buffer());
}

#[test]
fn new_surface_is_black_frame() {
    let draw = DrawContext::new();
    assert_eq!(draw.len(), 128 * 128 * 3);
    assert!(draw.buffer().iter().all(|b| *b == 0));
}

#[test]
fn list_of_elements_converts_into_tree_element() {
    let mut converted: Element<Tree<Recorder>> = vec![recorder(4, true), recorder(5, false)].into();
    let mut d = DispatchEvent::new(Vec::new());
    converted.on_event(CLICK, (0, 0), &mut d);
    assert_eq!(d.into_messages(), vec![Msg::Seen(4), Msg::Seen(104)]);
    let mut draw = DrawContext::new();
    converted.draw(&mut draw);
    assert_eq!(painted_ids(&draw), vec![41, 51]);
}

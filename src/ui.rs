use crate::event::Event;
use std::fmt::Debug;
use std::marker::PhantomData;
use vstd::prelude::*;

verus! {

/// Width of the console's screen, in pixels.
pub const SCREEN_WIDTH: usize = 128;

/// Height of the console's screen, in pixels.
pub const SCREEN_HEIGHT: usize = 128;

/// Bytes in one frame: three colour channels per pixel.
pub const FRAME_BYTES: usize = 49152;

/// The write-only channel through which a widget reports messages to its owner.
/// Messages are kept in the order in which they were reported.
pub struct DispatchEvent<Msg> {
    queue: Vec<Msg>,
}

impl<Msg> View for DispatchEvent<Msg> {
    type V = Seq<Msg>;

    closed spec fn view(&self) -> Seq<Msg> {
        self.queue@
    }
}

impl<Msg> DispatchEvent<Msg> {
    /// Starts a dispatch that appends to `queue`.
    pub fn new(queue: Vec<Msg>) -> (r: Self)
        ensures
            r@ == queue@,
    {
        Self { queue }
    }

    /// Reports one message.
    pub fn call(&mut self, msg: Msg)
        ensures
            final(self)@ == old(self)@.push(msg),
    {
        self.queue.push(msg);
    }

    /// Hands the messages back to the owner, in the order they were reported.
    pub fn into_messages(self) -> (r: Vec<Msg>)
        ensures
            r@ == self@,
    {
        self.queue
    }
}

/// The surface that widgets paint on: one frame of RGB bytes.
pub struct DrawContext {
    buffer: Vec<u8>,
}

impl View for DrawContext {
    type V = Seq<u8>;

    closed spec fn view(&self) -> Seq<u8> {
        self.buffer@
    }
}

impl DrawContext {
    /// A black frame.
    pub fn new() -> (r: Self)
        ensures
            r@ == Seq::new(FRAME_BYTES as nat, |i: int| 0u8),
    {
        let mut buffer: Vec<u8> = Vec::new();
        let mut i: usize = 0;
        while i < FRAME_BYTES
            invariant
                i <= FRAME_BYTES,
                buffer@ == Seq::new(i as nat, |k: int| 0u8),
            decreases FRAME_BYTES - i,
        {
            buffer.push(0u8);
            i += 1;
        }
        Self { buffer }
    }

    /// Number of bytes on the surface.
    pub fn len(&self) -> (r: usize)
        ensures
            r == self@.len(),
    {
        self.buffer.len()
    }

    /// The byte at `index`.
    pub fn get(&self, index: usize) -> (r: u8)
        requires
            index < self@.len(),
        ensures
            r == self@[index as int],
    {
        self.buffer[index]
    }

    /// Writes one byte.
    pub fn set(&mut self, index: usize, value: u8)
        requires
            index < old(self)@.len(),
        ensures
            final(self)@ == old(self)@.update(index as int, value),
    {
        self.buffer.set(index, value);
    }

    /// The painted bytes, for presentation.
    pub fn buffer(&self) -> (r: &[u8])
        ensures
            r@ == self@,
    {
        self.buffer.as_slice()
    }
}

/// An interactive unit: it reacts to input by reporting messages, and paints itself.
///
/// `emitted` is what one event makes the widget report, `reacts` relates its
/// state before and after the event, and `painted` is what drawing does to the
/// surface. A widget that keeps the default model reports nothing, stays as it
/// is and paints nothing.
pub trait Widget: Sized {
    type Msg: Copy + Debug;

    open spec fn emitted(&self, event: Event, cursor_position: (i32, i32)) -> Seq<Self::Msg> {
        Seq::empty()
    }

    open spec fn reacts(&self, event: Event, cursor_position: (i32, i32), next: Self) -> bool {
        next == *self
    }

    open spec fn painted(&self, before: Seq<u8>) -> Seq<u8> {
        before
    }

    fn on_event(
        &mut self,
        event: Event,
        cursor_position: (i32, i32),
        dispatch_event: &mut DispatchEvent<Self::Msg>,
    )
        ensures
            final(dispatch_event)@ == old(dispatch_event)@ + old(self).emitted(event, cursor_position),
            old(self).reacts(event, cursor_position, *final(self)),
    ;

    fn draw(&self, draw: &mut DrawContext)
        ensures
            final(draw)@ == self.painted(old(draw)@),
    ;
}

/// What the widgets of `ws` report for one event, each in turn.
pub open spec fn messages_of<W: Widget>(ws: Seq<W>, event: Event, cursor_position: (i32, i32)) -> Seq<W::Msg>
    decreases ws.len(),
{
    if ws.len() == 0 {
        Seq::empty()
    } else {
        messages_of(ws.drop_last(), event, cursor_position) + ws.last().emitted(event, cursor_position)
    }
}

/// The surface after the widgets of `ws` have painted on `before`, first to last.
pub open spec fn painted_in_order<W: Widget>(ws: Seq<W>, before: Seq<u8>) -> Seq<u8>
    decreases ws.len(),
{
    if ws.len() == 0 {
        before
    } else {
        ws.last().painted(painted_in_order(ws.drop_last(), before))
    }
}

/// Each widget of `ws` has reacted to the event and become the one at its place in `next`.
pub open spec fn all_react<W: Widget>(
    ws: Seq<W>,
    event: Event,
    cursor_position: (i32, i32),
    next: Seq<W>,
) -> bool {
    &&& next.len() == ws.len()
    &&& forall|j: int| 0 <= j < ws.len() ==> #[trigger] ws[j].reacts(event, cursor_position, next[j])
}

/// Sole owner of one widget, so that widgets can be stored together in a tree.
pub struct Element<W> {
    widget: W,
}

impl<W> View for Element<W> {
    type V = W;

    closed spec fn view(&self) -> W {
        self.widget
    }
}

impl<W: Widget> Element<W> {
    /// Takes ownership of `widget`.
    pub fn new(widget: W) -> (r: Self)
        ensures
            r@ == widget,
    {
        Self { widget }
    }

    /// The owned widget, for drawing.
    pub fn as_widget(&self) -> (r: &W)
        ensures
            *r == self@,
    {
        &self.widget
    }

    /// The owned widget, for handling events.
    pub fn as_widget_mut(&mut self) -> (r: &mut W)
        ensures
            *r == old(self)@,
            final(self)@ == *final(r),
    {
        &mut self.widget
    }
}

impl<W: Widget> Element<Tree<W>> {
    /// Gathers `children`, in their order, into one tree.
    pub fn from_children(children: Vec<Element<W>>) -> (r: Self)
        ensures
            r@@ == children@.map_values(|e: Element<W>| e@),
    {
        Element::new(Tree::with_children(children))
    }
}

impl<W: Widget> From<Vec<Element<W>>> for Element<Tree<W>> {
    /// Gathers `children`, in their order, into one tree.
    fn from(children: Vec<Element<W>>) -> (r: Self) {
        Element { widget: Tree { children } }
    }
}

impl<W: Widget> vstd::std_specs::convert::FromSpecImpl<Vec<Element<W>>> for Element<Tree<W>> {
    open spec fn obeys_from_spec() -> bool {
        true
    }

    closed spec fn from_spec(children: Vec<Element<W>>) -> Self {
        Element { widget: Tree { children } }
    }
}

impl<W: Widget> Widget for Element<W> {
    type Msg = W::Msg;

    open spec fn emitted(&self, event: Event, cursor_position: (i32, i32)) -> Seq<W::Msg> {
        self@.emitted(event, cursor_position)
    }

    open spec fn reacts(&self, event: Event, cursor_position: (i32, i32), next: Self) -> bool {
        self@.reacts(event, cursor_position, next@)
    }

    open spec fn painted(&self, before: Seq<u8>) -> Seq<u8> {
        self@.painted(before)
    }

    fn on_event(
        &mut self,
        event: Event,
        cursor_position: (i32, i32),
        dispatch_event: &mut DispatchEvent<W::Msg>,
    ) {
        self.widget.on_event(event, cursor_position, dispatch_event);
    }

    fn draw(&self, draw: &mut DrawContext) {
        self.widget.draw(draw);
    }
}

/// A widget made of child widgets, which see every event and paint in the
/// order in which they were added.
pub struct Tree<W> {
    children: Vec<Element<W>>,
}

impl<W> View for Tree<W> {
    type V = Seq<W>;

    closed spec fn view(&self) -> Seq<W> {
        self.children@.map_values(|e: Element<W>| e@)
    }
}

impl<W: Widget> Tree<W> {
    /// A tree without children.
    pub fn new() -> (r: Self)
        ensures
            r@ == Seq::<W>::empty(),
    {
        Self::with_children(Vec::new())
    }

    /// A tree whose children are `children`, in that order.
    pub fn with_children(children: Vec<Element<W>>) -> (r: Self)
        ensures
            r@ == children@.map_values(|e: Element<W>| e@),
    {
        Self { children }
    }

    /// Adds `element` as the last child.
    pub fn push(self, element: Element<W>) -> (r: Self)
        ensures
            r@ == self@.push(element@),
    {
        let mut children = self.children;
        children.push(element);
        let r = Self { children };
        proof {
            assert(r@ =~= self@.push(element@));
        }
        r
    }
}

impl<W: Widget> Widget for Tree<W> {
    type Msg = W::Msg;

    open spec fn emitted(&self, event: Event, cursor_position: (i32, i32)) -> Seq<W::Msg> {
        messages_of(self@, event, cursor_position)
    }

    open spec fn reacts(&self, event: Event, cursor_position: (i32, i32), next: Self) -> bool {
        all_react(self@, event, cursor_position, next@)
    }

    open spec fn painted(&self, before: Seq<u8>) -> Seq<u8> {
        painted_in_order(self@, before)
    }

    fn on_event(
        &mut self,
        event: Event,
        cursor_position: (i32, i32),
        dispatch_event: &mut DispatchEvent<W::Msg>,
    ) {
        let n = self.children.len();
        let mut i: usize = 0;
        while i < n
            invariant
                n == self.children@.len(),
                n == old(self).children@.len(),
                i <= n,
                forall|j: int| 0 <= j < i ==> #[trigger] old(self).children@[j].widget.reacts(event, cursor_position, self.children@[j].widget),
                forall|j: int| i <= j < n ==> self.children@[j] == old(self).children@[j],
                dispatch_event@ == old(dispatch_event)@ + messages_of(
                    old(self)@.subrange(0, i as int),
                    event,
                    cursor_position,
                ),
            decreases n - i,
        {
            proof {
                let ws = old(self)@;
                assert(ws.subrange(0, i + 1).drop_last() =~= ws.subrange(0, i as int));
            }
            self.children[i].widget.on_event(event, cursor_position, dispatch_event);
            i += 1;
        }
        proof {
            assert(old(self)@.subrange(0, n as int) =~= old(self)@);
        }
    }

    fn draw(&self, draw: &mut DrawContext) {
        let n = self.children.len();
        let mut i: usize = 0;
        while i < n
            invariant
                n == self.children@.len(),
                i <= n,
                draw@ == painted_in_order(self@.subrange(0, i as int), old(draw)@),
            decreases n - i,
        {
            proof {
                assert(self@.subrange(0, i + 1).drop_last() =~= self@.subrange(0, i as int));
            }
            self.children[i].widget.draw(draw);
            i += 1;
        }
        proof {
            assert(self@.subrange(0, n as int) =~= self@);
        }
    }
}

/// A drawing procedure with no interest in events. One that keeps the default
/// model paints nothing.
pub trait Paint {
    open spec fn painted(&self, before: Seq<u8>) -> Seq<u8> {
        before
    }

    fn paint(&self, draw: &mut DrawContext)
        ensures
            final(draw)@ == self.painted(old(draw)@),
    ;
}

/// A widget that only paints, for static decoration among interactive widgets.
pub struct DrawFn<Msg, P> {
    pd: PhantomData<Msg>,
    f: P,
}

impl<Msg: Copy + Debug, P: Paint> DrawFn<Msg, P> {
    /// Wraps the drawing procedure `f`.
    pub fn new(f: P) -> (r: Self)
        ensures
            r.procedure() == f,
    {
        Self { f, pd: PhantomData }
    }

    /// The wrapped drawing procedure.
    pub closed spec fn procedure(&self) -> P {
        self.f
    }
}

impl<Msg: Copy + Debug, P: Paint> Widget for DrawFn<Msg, P> {
    type Msg = Msg;

    open spec fn emitted(&self, event: Event, cursor_position: (i32, i32)) -> Seq<Msg> {
        Seq::empty()
    }

    open spec fn reacts(&self, event: Event, cursor_position: (i32, i32), next: Self) -> bool {
        next == *self
    }

    open spec fn painted(&self, before: Seq<u8>) -> Seq<u8> {
        self.procedure().painted(before)
    }

    fn on_event(
        &mut self,
        _event: Event,
        _cursor_position: (i32, i32),
        _dispatch_event: &mut DispatchEvent<Msg>,
    ) {
    }

    fn draw(&self, draw: &mut DrawContext) {
        self.f.paint(draw);
    }
}

/// The widgets after each of `es` has been added with `Tree::push`, one by one, to a
/// tree whose widgets are `start`.
pub open spec fn pushed_one_by_one<W>(start: Seq<W>, es: Seq<W>) -> Seq<W>
    decreases es.len(),
{
    if es.len() == 0 {
        start
    } else {
        pushed_one_by_one(start, es.drop_last()).push(es.last())
    }
}

/// Painting with the widgets of `front` and then those of `back` is painting with
/// `front + back`: a later widget paints over what the earlier ones left.
pub proof fn lemma_paint_order<W: Widget>(front: Seq<W>, back: Seq<W>, before: Seq<u8>)
    ensures
        painted_in_order(front + back, before) == painted_in_order(back, painted_in_order(front, before)),
    decreases back.len(),
{
    if back.len() == 0 {
        assert(front + back =~= front);
    } else {
        assert((front + back).drop_last() =~= front + back.drop_last());
        lemma_paint_order(front, back.drop_last(), before);
    }
}

/// The messages of one event over `front + back` are those of `front` followed by those
/// of `back`: reports keep the order in which the children were visited and the order
/// in which each child reported.
pub proof fn lemma_message_order<W: Widget>(
    front: Seq<W>,
    back: Seq<W>,
    event: Event,
    cursor_position: (i32, i32),
)
    ensures
        messages_of(front + back, event, cursor_position) == messages_of(front, event, cursor_position)
            + messages_of(back, event, cursor_position),
    decreases back.len(),
{
    if back.len() == 0 {
        assert(front + back =~= front);
        assert(messages_of(front, event, cursor_position) + Seq::<W::Msg>::empty() =~= messages_of(
            front,
            event,
            cursor_position,
        ));
    } else {
        assert((front + back).drop_last() =~= front + back.drop_last());
        lemma_message_order(front, back.drop_last(), event, cursor_position);
        assert(messages_of(front + back, event, cursor_position) =~= messages_of(front, event, cursor_position)
            + messages_of(back, event, cursor_position));
    }
}

/// A tree hands each event to every child exactly once, whatever the children report:
/// the messages of each child appear, in the order of the children, and every child
/// moves on by its own reaction.
pub proof fn lemma_every_child_sees_event<W: Widget>(
    t: Tree<W>,
    event: Event,
    cursor_position: (i32, i32),
    next: Tree<W>,
    i: int,
)
    requires
        0 <= i < t@.len(),
        t.reacts(event, cursor_position, next),
    ensures
        next@.len() == t@.len(),
        t@[i].reacts(event, cursor_position, next@[i]),
        t.emitted(event, cursor_position) == messages_of(t@.take(i), event, cursor_position)
            + t@[i].emitted(event, cursor_position) + messages_of(t@.skip(i + 1), event, cursor_position),
{
    let ws = t@;
    assert(ws =~= ws.take(i) + (seq![ws[i]] + ws.skip(i + 1)));
    lemma_message_order(ws.take(i), seq![ws[i]] + ws.skip(i + 1), event, cursor_position);
    lemma_message_order(seq![ws[i]], ws.skip(i + 1), event, cursor_position);
    let one = seq![ws[i]];
    assert(one.drop_last() =~= Seq::<W>::empty());
    assert(one.last() == ws[i]);
    assert(messages_of(one.drop_last(), event, cursor_position) =~= Seq::<W::Msg>::empty());
    assert(Seq::<W::Msg>::empty() + ws[i].emitted(event, cursor_position) =~= ws[i].emitted(
        event,
        cursor_position,
    ));
    assert(messages_of(seq![ws[i]], event, cursor_position) =~= ws[i].emitted(event, cursor_position));
}

/// A drawing widget reports nothing and stays as it was, whatever the event.
pub proof fn lemma_draw_fn_ignores_events<Msg: Copy + Debug, P: Paint>(
    w: DrawFn<Msg, P>,
    event: Event,
    cursor_position: (i32, i32),
    next: DrawFn<Msg, P>,
)
    ensures
        w.emitted(event, cursor_position) == Seq::<Msg>::empty(),
        w.reacts(event, cursor_position, next) ==> next == w,
{
}

/// Adding children one by one with `push`, starting from an empty tree, gives the tree
/// that `with_children` and `Element::from_children` build from the same children in the
/// same order, and so the same messages, reactions and painting.
pub proof fn lemma_push_matches_list<W: Widget>(
    children: Seq<Element<W>>,
    listed: Tree<W>,
    pushed: Tree<W>,
    event: Event,
    cursor_position: (i32, i32),
    before: Seq<u8>,
)
    requires
        listed@ == children.map_values(|e: Element<W>| e@),
        pushed@ == pushed_one_by_one(Seq::<W>::empty(), children.map_values(|e: Element<W>| e@)),
    ensures
        pushed@ == listed@,
        pushed.emitted(event, cursor_position) == listed.emitted(event, cursor_position),
        pushed.painted(before) == listed.painted(before),
        forall|next: Tree<W>|
            pushed.reacts(event, cursor_position, next) == listed.reacts(event, cursor_position, next),
{
    lemma_pushed_one_by_one(children.map_values(|e: Element<W>| e@));
}

proof fn lemma_pushed_one_by_one<W>(ws: Seq<W>)
    ensures
        pushed_one_by_one(Seq::<W>::empty(), ws) == ws,
    decreases ws.len(),
{
    if ws.len() > 0 {
        lemma_pushed_one_by_one(ws.drop_last());
        assert(ws.drop_last().push(ws.last()) =~= ws);
    }
}

} // verus!

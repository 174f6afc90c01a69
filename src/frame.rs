use crate::event::{Event, InputEvent};
use vstd::prelude::*;

verus! {

/// Frames per second that the driver schedules.
pub const FRAMES_PER_SECOND: u64 = 30;

/// Time between two frames, in nanoseconds.
pub const NANOS_PER_FRAME: u64 = 33333333;

/// The instant, in nanoseconds, at which the frame after a tick at `now` is due.
pub open spec fn deadline_after(now: u64) -> u64 {
    now.saturating_add(NANOS_PER_FRAME)
}

/// The frame driver's state as a value: the input buffered since the last
/// tick, the instant at which the next tick is due, and whether the window
/// has closed.
pub struct DriverState {
    pub pending: Seq<InputEvent>,
    pub deadline: u64,
    pub closed: bool,
}

/// What the driver asks of its host, as a value.
pub enum Step {
    Wait,
    Frame { inputs: Seq<InputEvent>, deadline: u64 },
    Exit,
}

/// One transition of the frame driver.
///
/// A tick hands over the buffered input and schedules the next tick one frame
/// later; input is buffered; closing the window ends the loop, and a closed
/// driver answers every event with the end of the loop.
pub open spec fn next_step(s: DriverState, event: Event, now: u64) -> (DriverState, Step) {
    if s.closed {
        (s, Step::Exit)
    } else {
        match event {
            Event::Tick { .. } => (
                DriverState { pending: Seq::empty(), deadline: deadline_after(now), closed: false },
                Step::Frame { inputs: s.pending, deadline: deadline_after(now) },
            ),
            Event::Input(input) => (DriverState { pending: s.pending.push(input), ..s }, Step::Wait),
            Event::WindowClosed => (DriverState { closed: true, ..s }, Step::Exit),
        }
    }
}

/// What the host does after handing an event to the driver.
pub enum Action {
    /// Keep waiting for the next event or the deadline.
    Wait,
    /// Merge `inputs` into the input model, update, draw, present the frame,
    /// then wait until `deadline`.
    Frame { inputs: Vec<InputEvent>, deadline: u64 },
    /// Leave the loop: no further frame is produced.
    Exit,
}

impl View for Action {
    type V = Step;

    open spec fn view(&self) -> Step {
        match self {
            Action::Wait => Step::Wait,
            Action::Frame { inputs, deadline } => Step::Frame { inputs: inputs@, deadline: *deadline },
            Action::Exit => Step::Exit,
        }
    }
}

/// The decisions of the per-frame loop: when to run a frame, with which input,
/// and when to stop.
pub struct FrameDriver {
    pending: Vec<InputEvent>,
    deadline: u64,
    closed: bool,
}

impl View for FrameDriver {
    type V = DriverState;

    closed spec fn view(&self) -> DriverState {
        DriverState { pending: self.pending@, deadline: self.deadline, closed: self.closed }
    }
}

impl FrameDriver {
    /// A driver started at `now`, whose first frame is due at once.
    pub fn new(now: u64) -> (r: Self)
        ensures
            r@ == (DriverState { pending: Seq::empty(), deadline: now, closed: false }),
    {
        Self { pending: Vec::new(), deadline: now, closed: false }
    }

    /// The instant at which the next tick is due.
    pub fn deadline(&self) -> (r: u64)
        ensures
            r == self@.deadline,
    {
        self.deadline
    }

    /// Whether the window has closed.
    pub fn is_closed(&self) -> (r: bool)
        ensures
            r == self@.closed,
    {
        self.closed
    }

    /// Takes one event, received at `now`, and says what the host does next.
    pub fn step(&mut self, event: Event, now: u64) -> (r: Action)
        ensures
            (final(self)@, r@) == next_step(old(self)@, event, now),
    {
        if self.closed {
            return Action::Exit;
        }
        match event {
            Event::Tick { .. } => {
                let deadline = now.saturating_add(NANOS_PER_FRAME);
                let mut inputs: Vec<InputEvent> = Vec::new();
                std::mem::swap(&mut inputs, &mut self.pending);
                self.deadline = deadline;
                Action::Frame { inputs, deadline }
            },
            Event::Input(input) => {
                self.pending.push(input);
                Action::Wait
            },
            Event::WindowClosed => {
                self.closed = true;
                Action::Exit
            },
        }
    }
}

/// Input received one event after another reaches the application together,
/// in the order received, at the next tick, and no frame runs in between.
pub proof fn lemma_input_merged_at_next_tick(
    s: DriverState,
    first: InputEvent,
    second: InputEvent,
    delta_millis: u64,
    t1: u64,
    t2: u64,
    t3: u64,
)
    requires
        !s.closed,
    ensures
        ({
            let (s1, a1) = next_step(s, Event::Input(first), t1);
            let (s2, a2) = next_step(s1, Event::Input(second), t2);
            let (s3, a3) = next_step(s2, Event::Tick { delta_millis }, t3);
            &&& a1 == Step::Wait
            &&& a2 == Step::Wait
            &&& a3 == Step::Frame { inputs: s.pending.push(first).push(second), deadline: deadline_after(t3) }
            &&& s3.pending == Seq::<InputEvent>::empty()
        }),
{
}

/// Once the window has closed, no event makes the driver run another frame.
pub proof fn lemma_closed_is_final(s: DriverState, t: u64, event: Event, now: u64)
    ensures
        next_step(s, Event::WindowClosed, t).0.closed,
        next_step(s, Event::WindowClosed, t).1 == Step::Exit,
        s.closed ==> next_step(s, event, now) == (s, Step::Exit),
{
}

/// Without input or a close, the tick deadlines follow one another one frame
/// apart, whenever each tick is handled: each deadline is one frame after the
/// tick that set it.
pub proof fn lemma_fixed_cadence(s: DriverState, d1: u64, d2: u64)
    requires
        !s.closed,
        s.deadline as int + 2 * NANOS_PER_FRAME <= u64::MAX,
    ensures
        ({
            let (s1, a1) = next_step(s, Event::Tick { delta_millis: d1 }, s.deadline);
            let (s2, a2) = next_step(s1, Event::Tick { delta_millis: d2 }, s1.deadline);
            &&& s1.deadline == s.deadline + NANOS_PER_FRAME
            &&& s2.deadline == s1.deadline + NANOS_PER_FRAME
            &&& a2 == Step::Frame { inputs: Seq::empty(), deadline: s2.deadline }
        }),
{
}

} // verus!

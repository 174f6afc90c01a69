use vstd::prelude::*;

verus! {

/// What the mouse did.
#[derive(Clone, Copy, Debug, PartialEq, Eq, Structural)]
pub enum MouseEvent {
    /// The cursor moved to a position on the console's screen.
    Move { x: i32, y: i32 },
    Down,
    Up,
}

/// A raw input event from the platform.
#[derive(Clone, Copy, Debug, PartialEq, Eq, Structural)]
pub enum InputEvent {
    Mouse(MouseEvent),
    /// A key, by its platform code, went down or up.
    Keyboard { key: u32, down: bool },
}

/// The three kinds of event that the platform hands to the frame driver.
#[derive(Clone, Copy, Debug, PartialEq, Eq, Structural)]
pub enum Event {
    /// Time to produce a frame.
    Tick { delta_millis: u64 },
    Input(InputEvent),
    WindowClosed,
}

} // verus!

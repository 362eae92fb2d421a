//! The input events that one packet can express.

use vstd::prelude::*;

verus! {

/// A mouse button that a packet can click.
#[derive(Clone, Copy, Debug, PartialEq, Eq, Structural)]
pub enum MouseButton {
    Left,
    Right,
}

/// One decoded input event. An event is fully determined by a single packet
/// and carries nothing over from earlier ones.
#[derive(Clone, Copy, Debug, PartialEq, Eq, Structural)]
pub enum Event {
    /// A character keystroke.
    KeyPress { character: char },
    /// A click of one mouse button.
    MouseClick { button: MouseButton },
    /// A pointer displacement relative to where the pointer stands.
    MouseMove { dx: i32, dy: i32 },
    /// A vertical scroll.
    MouseScroll { dy: i32 },
}

} // verus!

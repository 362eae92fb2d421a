//! The input dispatcher: which call on the input controller an event asks for.
//!
//! The controller is the one physical keyboard and pointer of the machine. It
//! lives with the caller; the dispatcher names the call and the caller makes
//! it.

use vstd::prelude::*;
use crate::event::Event;
use crate::event::MouseButton;

verus! {

/// One call on the input controller.
#[derive(Clone, Copy, Debug, PartialEq, Eq, Structural)]
pub enum InputCall {
    /// Press and release the key of a character.
    ClickKey { character: char },
    /// Press and release a mouse button.
    ClickButton { button: MouseButton },
    /// Move the pointer by a displacement.
    MoveRelative { dx: i32, dy: i32 },
    /// Scroll vertically.
    ScrollVertical { dy: i32 },
}

/// The call that an event asks for.
pub open spec fn call_for(event: Event) -> InputCall {
    match event {
        Event::KeyPress { character } => InputCall::ClickKey { character },
        Event::MouseClick { button } => InputCall::ClickButton { button },
        Event::MouseMove { dx, dy } => InputCall::MoveRelative { dx, dy },
        Event::MouseScroll { dy } => InputCall::ScrollVertical { dy },
    }
}

/// Maps an event to the single controller call that carries it out.
pub fn dispatch(event: Event) -> (call: InputCall)
    ensures
        call == call_for(event),
{
    match event {
        Event::KeyPress { character } => InputCall::ClickKey { character },
        Event::MouseClick { button } => InputCall::ClickButton { button },
        Event::MouseMove { dx, dy } => InputCall::MoveRelative { dx, dy },
        Event::MouseScroll { dy } => InputCall::ScrollVertical { dy },
    }
}

/// A call tells which event asked for it: two events with the same call are
/// the same event.
pub proof fn lemma_call_names_event(a: Event, b: Event)
    requires
        call_for(a) == call_for(b),
    ensures
        a == b,
{
}

} // verus!

//! Mapping of raw window and keyboard events to application actions.
use vstd::prelude::*;

verus! {

/// A virtual key code.
#[derive(Clone, Copy, Debug, PartialEq, Eq, Structural)]
pub enum Key {
    Escape,
    Space,
    Other(u32),
}

/// A raw event from the window.
#[derive(Clone, Copy, Debug, PartialEq, Eq, Structural)]
pub enum RawEvent {
    CloseRequested,
    KeyDown(Key),
    KeyUp(Key),
    Other,
}

/// The closed set of application actions.
#[derive(Clone, Copy, Debug, PartialEq, Eq, Structural)]
pub enum Action {
    Quit,
    SpawnMarkedEntity,
    NoOp,
}

/// The dispatch table: closing the window or pressing Escape quits, pressing
/// Space spawns a suppressed entity, anything else does nothing.
pub open spec fn action_of(e: RawEvent) -> Action {
    match e {
        RawEvent::CloseRequested => Action::Quit,
        RawEvent::KeyDown(Key::Escape) => Action::Quit,
        RawEvent::KeyDown(Key::Space) => Action::SpawnMarkedEntity,
        _ => Action::NoOp,
    }
}

/// Translates one raw event; pure and stateless.
pub fn dispatch(e: &RawEvent) -> (r: Action)
    ensures
        r == action_of(*e),
{
    match e {
        RawEvent::CloseRequested => Action::Quit,
        RawEvent::KeyDown(Key::Escape) => Action::Quit,
        RawEvent::KeyDown(Key::Space) => Action::SpawnMarkedEntity,
        _ => Action::NoOp,
    }
}

} // verus!

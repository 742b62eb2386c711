use vstd::prelude::*;
use web_sys::KeyboardEvent;

verus! {

/// A key was pressed. Wraps the platform event so that one observer can listen to
/// key-down and key-up events as two event types.
pub struct KeyDownEvent {
    pub key_event: KeyboardEvent,
}

/// A key was released.
pub struct KeyUpEvent {
    pub key_event: KeyboardEvent,
}

} // verus!

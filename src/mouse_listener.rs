use vstd::prelude::*;
use web_sys::{MouseEvent, WheelEvent};

verus! {

/// A click. Wraps the platform event so that one observer can listen to several
/// pointer events as distinct event types.
pub struct MouseClickEvent {
    pub mouse_event: MouseEvent,
}

/// The pointer moved.
pub struct MouseMoveEvent {
    pub mouse_event: MouseEvent,
}

/// The wheel turned.
pub struct MouseScrollEvent {
    pub mouse_event: WheelEvent,
}

/// Relies on web_sys::MouseEvent::offset_x: the pointer's x offset, as the
/// platform reports it.
#[verifier::external_body]
fn offset_x(e: &MouseEvent) -> i32 {
    e.offset_x()
}

/// Relies on web_sys::MouseEvent::offset_y: the pointer's y offset, as the
/// platform reports it.
#[verifier::external_body]
fn offset_y(e: &MouseEvent) -> i32 {
    e.offset_y()
}

impl MouseMoveEvent {
    /// The pointer's new position relative to the target, as reported by the
    /// platform event.
    pub fn get_new_position(&self) -> (i32, i32) {
        (offset_x(&self.mouse_event), offset_y(&self.mouse_event))
    }
}

} // verus!

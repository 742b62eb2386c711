use vstd::prelude::*;
use crate::handler::{Handler, Listener, Registry, Dispatch, is_dispatch};
use crate::source::Schedule;

verus! {

/// The milliseconds between two update events.
pub const UPDATE_INTERVAL_MS: u32 = 10;

/// Fired every [`UPDATE_INTERVAL_MS`] milliseconds once the timer runs.
pub struct UpdateEvent {}

/// The periodic update category: one repeating timer, set up once and never
/// re-armed.
pub struct UpdateTimer {
    armed: bool,
}

impl View for UpdateTimer {
    type V = bool;

    closed spec fn view(&self) -> bool {
        self.armed
    }
}

impl UpdateTimer {
    pub fn new() -> (r: UpdateTimer)
        ensures
            !r@,
    {
        UpdateTimer { armed: false }
    }

    /// The timer the caller must set up: one the first time, none after.
    pub fn start(&mut self) -> (r: Option<Schedule>)
        ensures
            final(self)@,
            !old(self)@ ==> r == Some(Schedule::Every(UPDATE_INTERVAL_MS)),
            old(self)@ ==> r is None,
    {
        if self.armed {
            None
        } else {
            self.armed = true;
            Some(Schedule::Every(UPDATE_INTERVAL_MS))
        }
    }

    /// Handles one timer callback: once the timer runs, dispatches an update event
    /// to the update handler's listeners.
    pub fn on_tick<L: Listener<UpdateEvent>>(
        &self,
        handler: &mut Handler<UpdateEvent>,
        registry: &mut Registry<L>,
    )
        ensures
            self@ ==> exists|d: Dispatch<L>|
                #[trigger] is_dispatch(
                    UpdateEvent {},
                    old(handler)@,
                    old(registry)@,
                    d,
                    final(handler)@,
                    final(registry)@,
                ),
            final(registry).live() == old(registry).live(),
            !self@ ==> final(handler)@ == old(handler)@ && final(registry)@ == old(registry)@,
    {
        if self.armed {
            let d = handler.fire_event(UpdateEvent {}, registry);
            assert(is_dispatch(UpdateEvent {}, old(handler)@, old(registry)@, d@, handler@, registry@));
        }
    }
}

} // verus!

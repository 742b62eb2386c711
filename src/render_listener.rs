use vstd::prelude::*;
use crate::handler::{Handler, Listener, Registry, Dispatch, is_dispatch};
use crate::source::Schedule;

verus! {

/// Fired once per animation frame the platform grants.
pub struct RenderEvent {}

/// The state of the frame-paced category: whether it was started, and how many
/// frame events it has fired.
pub struct FrameState {
    pub armed: bool,
    pub frames: nat,
}

/// One frame callback: a started loop fires one more frame event and asks for the
/// next frame; one never started does nothing.
pub open spec fn frame_step(s: FrameState) -> (FrameState, Option<Schedule>) {
    if s.armed {
        (FrameState { armed: true, frames: s.frames + 1 }, Some(Schedule::NextFrame))
    } else {
        (s, None)
    }
}

/// The state after `n` frame callbacks.
pub open spec fn frames_after(s: FrameState, n: nat) -> FrameState
    decreases n,
{
    if n == 0 {
        s
    } else {
        frame_step(frames_after(s, (n - 1) as nat)).0
    }
}

/// The frame-paced category: each frame callback fires a render event and asks for
/// the next frame, a chain that goes on as long as the platform grants frames.
pub struct FrameLoop {
    armed: bool,
    frames: Ghost<nat>,
}

impl View for FrameLoop {
    type V = FrameState;

    closed spec fn view(&self) -> FrameState {
        FrameState { armed: self.armed, frames: self.frames@ }
    }
}

impl FrameLoop {
    pub fn new() -> (r: FrameLoop)
        ensures
            r@ == (FrameState { armed: false, frames: 0 }),
    {
        FrameLoop { armed: false, frames: Ghost(0) }
    }

    /// The first frame request: made the first time, never again.
    pub fn start(&mut self) -> (r: Option<Schedule>)
        ensures
            final(self)@ == (FrameState { armed: true, frames: old(self)@.frames }),
            !old(self)@.armed ==> r == Some(Schedule::NextFrame),
            old(self)@.armed ==> r is None,
    {
        if self.armed {
            None
        } else {
            self.armed = true;
            Some(Schedule::NextFrame)
        }
    }

    /// Handles one frame callback: once the loop was started, dispatches a render
    /// event to the render handler's listeners and returns the request for the next
    /// frame.
    pub fn on_frame<L: Listener<RenderEvent>>(
        &mut self,
        handler: &mut Handler<RenderEvent>,
        registry: &mut Registry<L>,
    ) -> (r: Option<Schedule>)
        ensures
            (final(self)@, r) == frame_step(old(self)@),
            old(self)@.armed ==> exists|d: Dispatch<L>|
                #[trigger] is_dispatch(
                    RenderEvent {},
                    old(handler)@,
                    old(registry)@,
                    d,
                    final(handler)@,
                    final(registry)@,
                ),
            final(registry).live() == old(registry).live(),
            !old(self)@.armed ==> final(handler)@ == old(handler)@ && final(registry)@ == old(
                registry,
            )@,
    {
        if self.armed {
            let d = handler.fire_event(RenderEvent {}, registry);
            assert(is_dispatch(RenderEvent {}, old(handler)@, old(registry)@, d@, handler@, registry@));
            self.frames = Ghost(self.frames@ + 1);
            Some(Schedule::NextFrame)
        } else {
            None
        }
    }
}

/// Once started, the frame loop keeps going: after any number of callbacks it is
/// still armed, has fired one frame event per callback, and the next callback
/// fires again and asks for the following frame.
pub proof fn lemma_frames_continue(s: FrameState, n: nat)
    requires
        s.armed,
    ensures
        frames_after(s, n).armed,
        frames_after(s, n).frames == s.frames + n,
        frame_step(frames_after(s, n)).1 == Some(Schedule::NextFrame),
        frame_step(frames_after(s, n)).0.frames == frames_after(s, n).frames + 1,
    decreases n,
{
    if n > 0 {
        lemma_frames_continue(s, (n - 1) as nat);
    }
}

} // verus!

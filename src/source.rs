use vstd::prelude::*;

verus! {

/// The platform surface a raw event is registered on.
#[derive(Clone, Copy, Debug, PartialEq, Eq, Structural)]
pub enum Surface {
    /// The event source handed to [`EventSetup::attach`]'s caller: the window or
    /// any element.
    Source,
    /// The top-level window.
    Window,
}

/// The raw platform events the source-driven categories listen for.
#[derive(Clone, Copy, Debug, PartialEq, Eq, Structural)]
pub enum RawEvent {
    KeyDown,
    KeyUp,
    Click,
    MouseMove,
    Wheel,
    Resize,
    Copy,
    Paste,
    Cut,
}

/// The platform's name of a raw event.
pub open spec fn raw_name(e: RawEvent) -> Seq<char> {
    match e {
        RawEvent::KeyDown => "keydown"@,
        RawEvent::KeyUp => "keyup"@,
        RawEvent::Click => "click"@,
        RawEvent::MouseMove => "mousemove"@,
        RawEvent::Wheel => "wheel"@,
        RawEvent::Resize => "resize"@,
        RawEvent::Copy => "copy"@,
        RawEvent::Paste => "paste"@,
        RawEvent::Cut => "cut"@,
    }
}

/// Where a raw event is registered: keyboard and pointer events on the chosen
/// source, resize and clipboard events on the window.
pub open spec fn raw_surface(e: RawEvent) -> Surface {
    match e {
        RawEvent::KeyDown | RawEvent::KeyUp | RawEvent::Click | RawEvent::MouseMove
        | RawEvent::Wheel => Surface::Source,
        _ => Surface::Window,
    }
}

impl RawEvent {
    pub fn name(&self) -> (r: &'static str)
        ensures
            r@ == raw_name(*self),
    {
        match self {
            RawEvent::KeyDown => "keydown",
            RawEvent::KeyUp => "keyup",
            RawEvent::Click => "click",
            RawEvent::MouseMove => "mousemove",
            RawEvent::Wheel => "wheel",
            RawEvent::Resize => "resize",
            RawEvent::Copy => "copy",
            RawEvent::Paste => "paste",
            RawEvent::Cut => "cut",
        }
    }

    pub fn surface(&self) -> (r: Surface)
        ensures
            r == raw_surface(*self),
    {
        match self {
            RawEvent::KeyDown | RawEvent::KeyUp | RawEvent::Click | RawEvent::MouseMove
            | RawEvent::Wheel => Surface::Source,
            _ => Surface::Window,
        }
    }
}

/// What a self-driven category asks the platform to schedule.
#[derive(Clone, Copy, Debug, PartialEq, Eq, Structural)]
pub enum Schedule {
    /// Call back once before the next rendered frame.
    NextFrame,
    /// Call back every this many milliseconds, for good.
    Every(u32),
}

/// The raw events registered when the source-driven categories are attached, in
/// order: keyboard, pointer, resize, clipboard.
pub open spec fn attached_events() -> Seq<RawEvent> {
    seq![
        RawEvent::KeyDown,
        RawEvent::KeyUp,
        RawEvent::Click,
        RawEvent::MouseMove,
        RawEvent::Wheel,
        RawEvent::Resize,
        RawEvent::Copy,
        RawEvent::Paste,
        RawEvent::Cut,
    ]
}

/// Whether the source-driven categories were attached to an event source. They
/// are attached once and never detached.
pub struct EventSetup {
    armed: bool,
}

impl View for EventSetup {
    type V = bool;

    closed spec fn view(&self) -> bool {
        self.armed
    }
}

impl EventSetup {
    pub fn new() -> (r: EventSetup)
        ensures
            !r@,
    {
        EventSetup { armed: false }
    }

    pub fn is_armed(&self) -> (r: bool)
        ensures
            r == self@,
    {
        self.armed
    }

    /// The raw events the caller must register, each on its [`RawEvent::surface`]:
    /// all of them the first time, none on any later call.
    pub fn attach(&mut self) -> (r: Vec<RawEvent>)
        ensures
            final(self)@,
            !old(self)@ ==> r@ == attached_events(),
            old(self)@ ==> r@.len() == 0,
    {
        if self.armed {
            return Vec::new();
        }
        self.armed = true;
        let r = vec![
            RawEvent::KeyDown,
            RawEvent::KeyUp,
            RawEvent::Click,
            RawEvent::MouseMove,
            RawEvent::Wheel,
            RawEvent::Resize,
            RawEvent::Copy,
            RawEvent::Paste,
            RawEvent::Cut,
        ];
        assert(r@ == attached_events());
        r
    }
}

} // verus!

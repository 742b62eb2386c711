use vstd::prelude::*;
use web_sys::ClipboardEvent;

verus! {

/// The user copied.
pub struct CopyEvent {
    pub clipboard_event: ClipboardEvent,
}

/// The user pasted.
pub struct PasteEvent {
    pub clipboard_event: ClipboardEvent,
}

/// The user cut.
pub struct CutEvent {
    pub clipboard_event: ClipboardEvent,
}

} // verus!

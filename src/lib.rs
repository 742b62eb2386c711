//! Typed event dispatch: per-category handlers that notify non-owned listeners in
//! subscription order, defer subscriptions made during a dispatch, and drop
//! subscriptions of listeners that no longer exist.
pub mod clipboard_listener;
pub mod handler;
pub mod key_listener;
pub mod laws;
pub mod mouse_listener;
mod platform;
pub mod render_listener;
pub mod resize_listener;
pub mod source;
pub mod update_listener;

pub use clipboard_listener::{CopyEvent, CutEvent, PasteEvent};
pub use handler::{Handler, Listener, ListenerId, Registry, Subscriptions};
pub use key_listener::{KeyDownEvent, KeyUpEvent};
pub use mouse_listener::{MouseClickEvent, MouseMoveEvent, MouseScrollEvent};
pub use render_listener::{FrameLoop, RenderEvent};
pub use resize_listener::ResizeEvent;
pub use source::{EventSetup, RawEvent, Schedule, Surface};
pub use update_listener::{UpdateEvent, UpdateTimer, UPDATE_INTERVAL_MS};

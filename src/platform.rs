use vstd::prelude::*;

verus! {

/// The browser's keyboard event, carried through unread.
#[verifier::external_type_specification]
#[verifier::external_body]
pub struct ExKeyboardEvent(web_sys::KeyboardEvent);

/// The browser's mouse event, carried through; only its offsets are read.
#[verifier::external_type_specification]
#[verifier::external_body]
pub struct ExMouseEvent(web_sys::MouseEvent);

/// The browser's wheel event, carried through unread.
#[verifier::external_type_specification]
#[verifier::external_body]
pub struct ExWheelEvent(web_sys::WheelEvent);

/// The browser's clipboard event, carried through unread.
#[verifier::external_type_specification]
#[verifier::external_body]
pub struct ExClipboardEvent(web_sys::ClipboardEvent);

} // verus!

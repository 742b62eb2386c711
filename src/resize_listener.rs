use vstd::prelude::*;

verus! {

/// The window's new inner size, fired on each platform resize notification.
pub struct ResizeEvent {
    new_width: u32,
    new_height: u32,
}

impl View for ResizeEvent {
    /// Width, then height.
    type V = (u32, u32);

    closed spec fn view(&self) -> (u32, u32) {
        (self.new_width, self.new_height)
    }
}

impl ResizeEvent {
    /// The event for a window now `new_width` by `new_height`.
    pub fn new(new_width: u32, new_height: u32) -> (r: ResizeEvent)
        ensures
            r@ == (new_width, new_height),
    {
        ResizeEvent { new_width, new_height }
    }

    pub fn get_new_width(&self) -> (r: u32)
        ensures
            r == self@.0,
    {
        self.new_width
    }

    pub fn get_new_height(&self) -> (r: u32)
        ensures
            r == self@.1,
    {
        self.new_height
    }
}

} // verus!

//! The progress indicator's state: a message and the frame the animation
//! stands on. Rendering is the caller's affair; the state only cycles.

use vstd::prelude::*;

verus! {

/// How many animation frames the indicator cycles through.
pub const FRAME_COUNT: usize = 10;

/// A progress indicator's state.
pub struct Spinner {
    pub message: String,
    pub current_frame: usize,
}

impl Spinner {
    /// The frame always stays inside the cycle.
    pub open spec fn wf(&self) -> bool {
        self.current_frame < FRAME_COUNT
    }

    /// A fresh indicator showing the given message.
    pub fn new(message: &str) -> (r: Spinner)
        ensures
            r.message@ == message@,
            r.current_frame == 0,
            r.wf(),
    {
        Spinner { message: message.to_owned(), current_frame: 0 }
    }

    /// Moves to the next frame, wrapping around at the end of the cycle.
    pub fn advance(&mut self)
        requires
            old(self).wf(),
        ensures
            final(self).wf(),
            final(self).message == old(self).message,
            final(self).current_frame == (old(self).current_frame + 1) % (FRAME_COUNT as int),
    {
        self.current_frame = (self.current_frame + 1) % FRAME_COUNT;
    }
}

} // verus!

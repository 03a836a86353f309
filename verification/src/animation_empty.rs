use crate::animation::Animation;
use crate::display::ObegraensadDisplay;
use crate::duration::duration_from_millis;
use fugit::MicrosDurationU32;
use vstd::prelude::*;

verus! {

/// For how many milliseconds the blank frame of the empty animation is
/// shown.
pub const EMPTY_FRAME_MILLIS: u32 = 500;

/// The animation that shows nothing.
pub struct EmptyAnimation {}

impl EmptyAnimation {
    pub fn new() -> (animation: Self)
        ensures
            animation.wf(),
    {
        Self {  }
    }
}

impl Animation for EmptyAnimation {
    open spec fn wf(&self) -> bool {
        true
    }

    open spec fn steps_to(&self, next: &Self) -> bool {
        *next == *self
    }

    open spec fn frame(&self) -> Set<(int, int)> {
        Set::empty()
    }

    open spec fn frame_micros(&self) -> int {
        EMPTY_FRAME_MILLIS * 1000
    }

    /// Clears the display, for half a second.
    fn render_frame(&mut self, display: &mut ObegraensadDisplay) -> (duration: MicrosDurationU32) {
        display.clear();
        duration_from_millis(EMPTY_FRAME_MILLIS)
    }
}

} // verus!

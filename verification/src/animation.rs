use crate::display::ObegraensadDisplay;
use crate::duration::duration_ticks;
use fugit::MicrosDurationU32;
use vstd::prelude::*;

verus! {

/// A generator of frames. Each call of `render_frame` is one tick of the
/// simulation behind it.
pub trait Animation {
    /// Whether the animation is in a state that its own methods can leave
    /// it in.
    spec fn wf(&self) -> bool;

    /// The pixels that the next call of `render_frame` lights.
    spec fn frame(&self) -> Set<(int, int)>;

    /// For how many microseconds the frame of the next call of
    /// `render_frame` is to be shown.
    spec fn frame_micros(&self) -> int;

    /// Whether `next` is the state in which one call of `render_frame`
    /// leaves an animation that was in this state.
    spec fn steps_to(&self, next: &Self) -> bool;

    /// Renders the next frame of the animation to the display and returns
    /// the duration this frame should be displayed for.
    ///
    /// What was on the display before does not show in the frame.
    fn render_frame(&mut self, display: &mut ObegraensadDisplay) -> (duration: MicrosDurationU32)
        requires
            old(self).wf(),
        ensures
            final(self).wf(),
            old(self).steps_to(final(self)),
            final(display)@ == old(self).frame(),
            duration_ticks(duration) == old(self).frame_micros(),
    ;
}

} // verus!

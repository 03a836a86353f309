use crate::animation::Animation;
use crate::animation_set::AnimationSet;
use crate::display::{decode_frame, ObegraensadDisplay, BYTE_COUNT};
use crate::duration::{duration_from_millis, duration_ticks};
use fugit::MicrosDurationU32;
use vstd::prelude::*;

verus! {

/// For how many milliseconds a blank frame is shown: the one at start-up, and
/// the one that follows a change of animation.
pub const BLANK_FRAME_MILLIS: u32 = 10;

/// Where the pipeline stands in its cycle.
#[derive(Clone, Copy, PartialEq, Eq, Structural)]
pub enum Phase {
    /// The frame in the frame buffer is computed and not yet transmitted.
    Ready,
    /// That frame is on the wire, and the frame buffer is free for the next.
    InFlight,
    /// The next frame is computed, and the one on the wire waits for its
    /// latch pulse.
    Pending,
}

/// What a pipeline holds, apart from its animation.
pub struct PipelineModel {
    /// The pixels that are lit in the frame buffer.
    pub frame: Set<(int, int)>,
    /// For how many microseconds the frame that is latched next is shown.
    pub current_micros: int,
    /// For how many microseconds the frame after that is shown.
    pub next_micros: int,
    pub phase: Phase,
}

impl PipelineModel {
    /// The pipeline at start-up: a blank frame, to be shown for
    /// `BLANK_FRAME_MILLIS`.
    pub open spec fn initial() -> PipelineModel {
        PipelineModel {
            frame: Set::empty(),
            current_micros: BLANK_FRAME_MILLIS * 1000,
            next_micros: BLANK_FRAME_MILLIS * 1000,
            phase: Phase::Ready,
        }
    }

    /// After the frame was handed to the wire.
    pub open spec fn transmitted(self) -> PipelineModel {
        PipelineModel {
            frame: self.frame,
            current_micros: self.current_micros,
            next_micros: self.next_micros,
            phase: Phase::InFlight,
        }
    }

    /// After the animation rendered `frame`, to be shown for `micros`.
    pub open spec fn computed(self, frame: Set<(int, int)>, micros: int) -> PipelineModel {
        PipelineModel {
            frame,
            current_micros: self.current_micros,
            next_micros: micros,
            phase: Phase::Pending,
        }
    }

    /// After the frame on the wire was latched.
    pub open spec fn latched(self) -> PipelineModel {
        PipelineModel {
            frame: self.frame,
            current_micros: self.next_micros,
            next_micros: self.next_micros,
            phase: Phase::Ready,
        }
    }

    /// After a blank frame took the place of the frame in the frame buffer.
    pub open spec fn blanked(self) -> PipelineModel {
        PipelineModel::initial()
    }

    /// After one whole cycle in which the animation rendered `frame`, to be
    /// shown for `micros`.
    pub open spec fn cycled(self, frame: Set<(int, int)>, micros: int) -> PipelineModel {
        self.transmitted().computed(frame, micros).latched()
    }

    /// After one cycle for each of `renders`, in their order. A render is
    /// the frame and the duration that one call of the animation gave.
    pub open spec fn run(self, renders: Seq<(Set<(int, int)>, int)>) -> PipelineModel
        decreases renders.len(),
    {
        if renders.len() == 0 {
            self
        } else {
            self.run(renders.drop_last()).cycled(renders.last().0, renders.last().1)
        }
    }
}

/// A frame is shown for the duration that was returned by the call that
/// rendered it. Cycle `k` of a run puts the frame of render `k - 1` on the
/// wire, and the timer that is set when that frame is latched runs for the
/// duration of render `k - 1`, not for that of render `k`, which the same
/// cycle computes.
pub proof fn lemma_frame_keeps_its_duration(
    start: PipelineModel,
    renders: Seq<(Set<(int, int)>, int)>,
    k: int,
)
    requires
        1 <= k <= renders.len(),
    ensures
        start.run(renders.take(k)).frame == renders[k - 1].0,
        start.run(renders.take(k)).current_micros == renders[k - 1].1,
        start.run(renders.take(k)).phase == Phase::Ready,
{
    assert(renders.take(k).last() == renders[k - 1]);
}

/// The frame pipeline: it overlaps the transmission of one frame with the
/// computation of the next, and keeps for each frame the duration that came
/// with it.
///
/// A cycle is `transmit`, `compute_next`, `latch`, in this order. The wire,
/// the latch line and the timer are the caller's.
pub struct FramePipeline<A: Animation> {
    animation: A,
    display: ObegraensadDisplay,
    current_frame_duration: MicrosDurationU32,
    next_frame_duration: MicrosDurationU32,
    phase: Phase,
}

impl<A: Animation> View for FramePipeline<A> {
    type V = PipelineModel;

    closed spec fn view(&self) -> PipelineModel {
        PipelineModel {
            frame: self.display@,
            current_micros: duration_ticks(self.current_frame_duration) as int,
            next_micros: duration_ticks(self.next_frame_duration) as int,
            phase: self.phase,
        }
    }
}

impl<A: Animation> FramePipeline<A> {
    /// The animation that renders the frames.
    pub closed spec fn animation(&self) -> A {
        self.animation
    }

    /// A pipeline that holds a blank frame and renders the frames after it
    /// with `animation`.
    pub fn new(animation: A) -> (pipeline: Self)
        requires
            animation.wf(),
        ensures
            pipeline@ == PipelineModel::initial(),
            pipeline.animation() == animation,
    {
        Self {
            animation,
            display: ObegraensadDisplay::new(),
            current_frame_duration: duration_from_millis(BLANK_FRAME_MILLIS),
            next_frame_duration: duration_from_millis(BLANK_FRAME_MILLIS),
            phase: Phase::Ready,
        }
    }

    /// Where the pipeline stands in its cycle.
    pub fn phase(&self) -> (phase: Phase)
        ensures
            phase == self@.phase,
    {
        self.phase
    }

    /// For how long the frame that is latched next is to be shown.
    pub fn current_frame_duration(&self) -> (duration: MicrosDurationU32)
        ensures
            duration_ticks(duration) == self@.current_micros,
    {
        self.current_frame_duration
    }

    /// Serializes the computed frame into `buffer`, which the caller then
    /// hands to the wire.
    pub fn transmit(&mut self, buffer: &mut [u8; BYTE_COUNT])
        requires
            old(self)@.phase == Phase::Ready,
        ensures
            decode_frame(final(buffer)@) == old(self)@.frame,
            final(self)@ == old(self)@.transmitted(),
            final(self).animation() == old(self).animation(),
    {
        self.display.to_output_buffer(buffer);
        self.phase = Phase::InFlight;
    }

    /// Renders the next frame while the last one is on the wire, and keeps
    /// the duration that the animation returns with it.
    pub fn compute_next(&mut self)
        requires
            old(self)@.phase == Phase::InFlight,
            old(self).animation().wf(),
        ensures
            final(self)@ == old(self)@.computed(
                old(self).animation().frame(),
                old(self).animation().frame_micros(),
            ),
            final(self).animation().wf(),
            old(self).animation().steps_to(&final(self).animation()),
    {
        self.next_frame_duration = self.animation.render_frame(&mut self.display);
        self.phase = Phase::Pending;
    }

    /// To be called when the frame timer has fired and the frame on the wire
    /// is latched. Returns the duration for which the timer is to run again:
    /// that of the frame now latched.
    pub fn latch(&mut self) -> (duration: MicrosDurationU32)
        requires
            old(self)@.phase == Phase::Pending,
        ensures
            duration_ticks(duration) == old(self)@.current_micros,
            final(self)@ == old(self)@.latched(),
            final(self).animation() == old(self).animation(),
    {
        let duration = self.current_frame_duration;
        self.current_frame_duration = self.next_frame_duration;
        self.phase = Phase::Ready;
        duration
    }

    /// Changes the animation. The frame that the old animation had computed
    /// is dropped for a blank one. Returns the duration for which the timer
    /// is to run from now: that of the blank frame.
    pub fn switch_animation(&mut self, animation: A) -> (duration: MicrosDurationU32)
        requires
            old(self)@.phase == Phase::Ready,
            animation.wf(),
        ensures
            duration_ticks(duration) == BLANK_FRAME_MILLIS * 1000,
            final(self)@ == old(self)@.blanked(),
            final(self).animation() == animation,
    {
        self.animation = animation;
        self.display.clear();
        self.current_frame_duration = duration_from_millis(BLANK_FRAME_MILLIS);
        self.next_frame_duration = duration_from_millis(BLANK_FRAME_MILLIS);
        self.current_frame_duration
    }
}

impl FramePipeline<AnimationSet> {
    /// To be called when the button was pressed and let go. Goes on to the
    /// animation that follows the one that ran, with a blank frame between
    /// the two. Returns the duration for which the timer is to run from now:
    /// that of the blank frame.
    pub fn cycle_animation(&mut self) -> (duration: MicrosDurationU32)
        requires
            old(self)@.phase == Phase::Ready,
        ensures
            duration_ticks(duration) == BLANK_FRAME_MILLIS * 1000,
            final(self)@ == old(self)@.blanked(),
            final(self).animation().follows(&old(self).animation()),
            final(self).animation().wf(),
    {
        let next = self.animation.next();
        self.switch_animation(next)
    }
}

} // verus!

use crate::animation::Animation;
use crate::animation_drops::{DropAnimation, DropsModel};
use crate::animation_empty::EmptyAnimation;
use crate::animation_leaves::{FallingLeaves, LeavesModel};
use crate::display::ObegraensadDisplay;
use fugit::MicrosDurationU32;
use vstd::prelude::*;

verus! {

/// One of the animations of this library. It renders as the animation that
/// it holds.
pub enum AnimationSet {
    Empty(EmptyAnimation),
    Leaves(FallingLeaves),
    Drops(DropAnimation),
}

impl AnimationSet {
    /// Whether this is the animation that follows `before` when the button
    /// is pressed, at its start: the leaves follow the blank display, the
    /// drops follow the leaves, and the blank display follows the drops.
    pub open spec fn follows(&self, before: &Self) -> bool {
        match before {
            AnimationSet::Empty(_) => (self matches AnimationSet::Leaves(leaves) && leaves@
                == LeavesModel::initial()),
            AnimationSet::Leaves(_) => (self matches AnimationSet::Drops(drops) && drops@
                == DropsModel::initial()),
            AnimationSet::Drops(_) => self is Empty,
        }
    }

    /// The animation that follows this one when the button is pressed, at
    /// its start.
    pub fn next(&self) -> (next: Self)
        ensures
            next.follows(self),
            next.wf(),
    {
        match self {
            AnimationSet::Empty(_) => AnimationSet::Leaves(FallingLeaves::new()),
            AnimationSet::Leaves(_) => AnimationSet::Drops(DropAnimation::new()),
            AnimationSet::Drops(_) => AnimationSet::Empty(EmptyAnimation::new()),
        }
    }
}

impl Animation for AnimationSet {
    open spec fn wf(&self) -> bool {
        match self {
            AnimationSet::Empty(animation) => animation.wf(),
            AnimationSet::Leaves(animation) => animation.wf(),
            AnimationSet::Drops(animation) => animation.wf(),
        }
    }

    open spec fn steps_to(&self, next: &Self) -> bool {
        match (self, next) {
            (AnimationSet::Empty(before), AnimationSet::Empty(after)) => before.steps_to(after),
            (AnimationSet::Leaves(before), AnimationSet::Leaves(after)) => before.steps_to(after),
            (AnimationSet::Drops(before), AnimationSet::Drops(after)) => before.steps_to(after),
            _ => false,
        }
    }

    open spec fn frame(&self) -> Set<(int, int)> {
        match self {
            AnimationSet::Empty(animation) => animation.frame(),
            AnimationSet::Leaves(animation) => animation.frame(),
            AnimationSet::Drops(animation) => animation.frame(),
        }
    }

    open spec fn frame_micros(&self) -> int {
        match self {
            AnimationSet::Empty(animation) => animation.frame_micros(),
            AnimationSet::Leaves(animation) => animation.frame_micros(),
            AnimationSet::Drops(animation) => animation.frame_micros(),
        }
    }

    fn render_frame(&mut self, display: &mut ObegraensadDisplay) -> (duration: MicrosDurationU32) {
        match self {
            AnimationSet::Empty(animation) => animation.render_frame(display),
            AnimationSet::Leaves(animation) => animation.render_frame(display),
            AnimationSet::Drops(animation) => animation.render_frame(display),
        }
    }
}

} // verus!

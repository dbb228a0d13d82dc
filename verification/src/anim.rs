//! Animation state.
//!
//! The two rotation angles advance independently each frame — `a` by 0.05
//! and `b` by 0.04 radians — each wrapping at a full turn through a cyclic
//! stepped range, and a flag records whether the animation should keep
//! playing.  A frame driver reads the flag, ticks the angles, and renders;
//! a stop request takes effect at the top of the next frame.

use crate::fx::TWO_PI_FX;
use crate::range::FloatRangeIter;
use vstd::prelude::*;

verus! {

/// The per-frame advance of the angle `a`, in ticks (0.05 radians).
pub const A_STEP: i64 = 5_000;

/// The per-frame advance of the angle `b`, in ticks (0.04 radians).
pub const B_STEP: i64 = 4_000;

/// The mutable state of the animation loop: the two cyclic angle
/// producers and the running flag.
pub struct Animation {
    pub a_iter: FloatRangeIter,
    pub b_iter: FloatRangeIter,
    pub playing: bool,
}

impl Animation {
    /// Both angle producers walk `[0, 2*pi)` with their own steps.
    pub open spec fn wf(self) -> bool {
        &&& self.a_iter.wf()
        &&& self.a_iter.start_spec() == 0
        &&& self.a_iter.end_spec() == TWO_PI_FX
        &&& self.a_iter.step_spec() == A_STEP
        &&& self.b_iter.wf()
        &&& self.b_iter.start_spec() == 0
        &&& self.b_iter.end_spec() == TWO_PI_FX
        &&& self.b_iter.step_spec() == B_STEP
    }

    /// A fresh animation: both angles at zero, playing.
    pub fn new() -> (r: Animation)
        ensures
            r.wf(),
            r.playing,
            r.a_iter.current_spec() == 0,
            r.b_iter.current_spec() == 0,
    {
        Animation {
            a_iter: FloatRangeIter::new(0, TWO_PI_FX, A_STEP),
            b_iter: FloatRangeIter::new(0, TWO_PI_FX, B_STEP),
            playing: true,
        }
    }

    /// Whether the animation should keep running.
    pub fn is_playing(&self) -> (r: bool)
        ensures
            r == self.playing,
    {
        self.playing
    }

    /// Requests a stop: the frame driver sees the flag at the top of its
    /// next iteration.  The angle state is untouched.
    pub fn stop_animation(&mut self)
        ensures
            !final(self).playing,
            final(self).a_iter == old(self).a_iter,
            final(self).b_iter == old(self).b_iter,
    {
        self.playing = false;
    }

    /// Advances both angles by one frame and returns them.  Each angle is
    /// its cyclic producer's next value, always within `[0, 2*pi)`.
    pub fn tick(&mut self) -> (r: (i64, i64))
        requires
            old(self).wf(),
        ensures
            final(self).wf(),
            final(self).playing == old(self).playing,
            0 <= r.0 < TWO_PI_FX,
            0 <= r.1 < TWO_PI_FX,
            old(self).a_iter.current_spec() < old(self).a_iter.size_spec() ==> r.0 == A_STEP
                * old(self).a_iter.current_spec(),
            old(self).a_iter.current_spec() >= old(self).a_iter.size_spec() ==> r.0 == 0,
            old(self).b_iter.current_spec() < old(self).b_iter.size_spec() ==> r.1 == B_STEP
                * old(self).b_iter.current_spec(),
            old(self).b_iter.current_spec() >= old(self).b_iter.size_spec() ==> r.1 == 0,
    {
        proof {
            assert(self.a_iter.size_spec() > 0);
            assert(self.b_iter.size_spec() > 0);
        }
        let a = self.a_iter.next_cyclic();
        let b = self.b_iter.next_cyclic();
        (a, b)
    }
}

} // verus!

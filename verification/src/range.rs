//! A restartable producer of evenly spaced fixed-point samples.
//!
//! `FloatRangeIter` walks the half-open interval `[start, end)` in steps of
//! `step`, yielding `start + step * i` for `i = 0 .. size - 1`, where
//! `size` is `(end - start) / step` truncated.  Every yielded value lies
//! inside the interval, and a cyclic restart wraps back to the first value.

use crate::fx::tdiv;
use core::ops::Range;
use vstd::arithmetic::div_mod::lemma_fundamental_div_mod;
use vstd::arithmetic::div_mod::lemma_mod_bound;
use vstd::prelude::*;

verus! {

/// Converts an interval to a stepped producer over its values.
pub trait ToFloatRangeIter where Self: Sized {
    /// The lower bound of the interval.
    spec fn start_of(self) -> int;

    /// The upper bound of the interval.
    spec fn end_of(self) -> int;

    /// Builds the producer that walks the interval in steps of `step`.
    fn stepped_by(self, step: i64) -> (r: FloatRangeIter)
        requires
            0 < step,
            self.start_of() <= self.end_of(),
            self.end_of() - self.start_of() <= 0x7fff_ffff_ffff_ffff,
        ensures
            r.wf(),
            r.start_spec() == self.start_of(),
            r.end_spec() == self.end_of(),
            r.step_spec() == step,
            r.current_spec() == 0,
            r.size_spec() == tdiv(self.end_of() - self.start_of(), step as int),
    ;
}

impl ToFloatRangeIter for Range<i64> {
    open spec fn start_of(self) -> int {
        self.start as int
    }

    open spec fn end_of(self) -> int {
        self.end as int
    }

    fn stepped_by(self, step: i64) -> (r: FloatRangeIter) {
        FloatRangeIter::new(self.start, self.end, step)
    }
}

/// Iterates over the evenly spaced fixed-point values of an interval.
#[derive(Clone)]
pub struct FloatRangeIter {
    pub start: i64,
    pub end: i64,
    pub step: i64,
    pub current: i64,
    pub size: i64,
}

impl FloatRangeIter {
    /// The producer's bookkeeping is sound: a positive step, a position
    /// within the sample count, and a count that never steps past the end.
    pub open spec fn wf(self) -> bool {
        &&& 0 < self.step
        &&& self.start <= self.end
        &&& self.end - self.start <= 0x7fff_ffff_ffff_ffff
        &&& self.size == tdiv(self.end - self.start, self.step as int)
        &&& 0 <= self.current <= self.size
        &&& self.start + self.step * self.size <= self.end
    }

    pub open spec fn start_spec(self) -> int {
        self.start as int
    }

    pub open spec fn end_spec(self) -> int {
        self.end as int
    }

    pub open spec fn step_spec(self) -> int {
        self.step as int
    }

    pub open spec fn current_spec(self) -> int {
        self.current as int
    }

    pub open spec fn size_spec(self) -> int {
        self.size as int
    }

    /// The value at position `i`.
    pub open spec fn value_at(self, i: int) -> int {
        self.start + self.step * i
    }

    /// The range bound invariant: every value the producer can yield —
    /// one per position below `size`, which equals `(end - start) / step`
    /// truncated — lies inside the half-open interval `[start, end)`.
    pub proof fn lemma_values_in_bounds(self, i: int)
        requires
            self.wf(),
            0 <= i < self.size_spec(),
        ensures
            self.start_spec() <= self.value_at(i) < self.end_spec(),
    {
        assert(0 <= self.step * i && self.step * i < self.step * self.size) by (nonlinear_arith)
            requires
                0 < self.step,
                0 <= i < self.size,
        {
        }
    }

    /// Builds the producer for `[start, end)` with the given step.  The
    /// sample count is the truncated quotient of the interval width by the
    /// step.
    pub fn new(start: i64, end: i64, step: i64) -> (r: FloatRangeIter)
        requires
            0 < step,
            start <= end,
            end - start <= 0x7fff_ffff_ffff_ffff,
        ensures
            r.wf(),
            r.start_spec() == start,
            r.end_spec() == end,
            r.step_spec() == step,
            r.current_spec() == 0,
            r.size_spec() == tdiv(end - start, step as int),
    {
        let width = end - start;
        let size = width / step;
        proof {
            lemma_fundamental_div_mod(width as int, step as int);
            lemma_mod_bound(width as int, step as int);
            assert(step * size == width - width % step);
        }
        FloatRangeIter { start, end, step, current: 0, size }
    }

    /// Yields the next sample, or nothing once the count is exhausted.
    /// Every yielded value `v` satisfies `start <= v < end`.
    pub fn next(&mut self) -> (r: Option<i64>)
        requires
            old(self).wf(),
        ensures
            final(self).wf(),
            final(self).start_spec() == old(self).start_spec(),
            final(self).end_spec() == old(self).end_spec(),
            final(self).step_spec() == old(self).step_spec(),
            final(self).size_spec() == old(self).size_spec(),
            old(self).current_spec() < old(self).size_spec() ==> {
                &&& r is Some
                &&& r.unwrap() == old(self).value_at(old(self).current_spec())
                &&& final(self).current_spec() == old(self).current_spec() + 1
                &&& old(self).start_spec() <= r.unwrap() < old(self).end_spec()
            },
            old(self).current_spec() >= old(self).size_spec() ==> {
                &&& r is None
                &&& final(self).current_spec() == old(self).current_spec()
            },
    {
        if self.current < self.size {
            proof {
                assert(self.step * self.current < self.step * self.size) by (nonlinear_arith)
                    requires
                        0 < self.step,
                        self.current < self.size,
                {
                }
                assert(0 <= self.step * self.current) by (nonlinear_arith)
                    requires
                        0 < self.step,
                        0 <= self.current,
                {
                }
            }
            let value = self.start + self.step * self.current;
            assert(value >= self.start);
            assert(value < self.end);
            self.current = self.current + 1;
            Some(value)
        } else {
            None
        }
    }

    /// Rewinds the producer to its first sample.
    pub fn reset(&mut self)
        requires
            old(self).wf(),
        ensures
            final(self).wf(),
            final(self).start_spec() == old(self).start_spec(),
            final(self).end_spec() == old(self).end_spec(),
            final(self).step_spec() == old(self).step_spec(),
            final(self).size_spec() == old(self).size_spec(),
            final(self).current_spec() == 0,
    {
        self.current = 0;
    }

    /// Yields the next sample of the endless cyclic traversal: once all
    /// samples are produced the producer restarts, so right after the last
    /// sample it yields the first value again.
    pub fn next_cyclic(&mut self) -> (r: i64)
        requires
            old(self).wf(),
            0 < old(self).size_spec(),
        ensures
            final(self).wf(),
            final(self).start_spec() == old(self).start_spec(),
            final(self).end_spec() == old(self).end_spec(),
            final(self).step_spec() == old(self).step_spec(),
            final(self).size_spec() == old(self).size_spec(),
            old(self).current_spec() < old(self).size_spec() ==> {
                &&& r == old(self).value_at(old(self).current_spec())
                &&& final(self).current_spec() == old(self).current_spec() + 1
            },
            old(self).current_spec() >= old(self).size_spec() ==> {
                &&& r == old(self).start_spec()
                &&& final(self).current_spec() == 1
            },
            old(self).start_spec() <= r < old(self).end_spec(),
    {
        if self.current >= self.size {
            self.reset();
        }
        let r = self.next();
        r.unwrap()
    }
}

} // verus!

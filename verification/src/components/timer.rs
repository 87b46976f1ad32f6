//! The placement timer of the active piece.

use crate::time::Span;
use vstd::prelude::*;

verus! {

/// A one-shot countdown. When it runs out, the active piece is committed
/// where it is.
#[derive(Clone, Copy, Debug, PartialEq, Eq, Structural, Hash)]
pub struct PlacementTimer {
    duration: Span,
    elapsed: Span,
    finished: bool,
    just_finished: bool,
}

/// What a timer holds.
pub struct TimerView {
    /// The time the timer was made for.
    pub duration: nat,
    /// The time that has run, never more than `duration`.
    pub elapsed: nat,
    /// Whether the timer has run out.
    pub finished: bool,
    /// Whether it ran out in the last tick.
    pub just_finished: bool,
}

impl View for PlacementTimer {
    type V = TimerView;

    closed spec fn view(&self) -> TimerView {
        TimerView {
            duration: self.duration@,
            elapsed: self.elapsed@,
            finished: self.finished,
            just_finished: self.just_finished,
        }
    }
}

/// The timer `pre` after a tick of `delta`. A timer that has run out stays
/// as it is and only forgets that it had just run out.
pub open spec fn ticked(pre: TimerView, delta: nat) -> TimerView {
    if pre.finished {
        TimerView { just_finished: false, ..pre }
    } else if pre.elapsed + delta >= pre.duration {
        TimerView { elapsed: pre.duration, finished: true, just_finished: true, ..pre }
    } else {
        TimerView { elapsed: pre.elapsed + delta, ..pre }
    }
}

impl TimerView {
    /// The elapsed time is within the duration, and equal to it once the
    /// timer has run out.
    pub open spec fn wf(self) -> bool {
        &&& self.elapsed <= self.duration
        &&& self.finished ==> self.elapsed == self.duration
        &&& self.just_finished ==> self.finished
    }
}

impl PlacementTimer {
    /// The timer's view is well formed.
    pub open spec fn wf(&self) -> bool {
        self@.wf()
    }

    /// A fresh timer over `duration`.
    pub fn new(duration: Span) -> (t: PlacementTimer)
        ensures
            t.wf(),
            t@ == (TimerView {
                duration: duration@,
                elapsed: 0,
                finished: false,
                just_finished: false,
            }),
    {
        PlacementTimer { duration, elapsed: Span::zero(), finished: false, just_finished: false }
    }

    /// Lets `delta` pass.
    pub fn tick(&mut self, delta: Span)
        requires
            old(self).wf(),
        ensures
            final(self).wf(),
            final(self)@ == ticked(old(self)@, delta@),
    {
        if self.finished {
            self.just_finished = false;
        } else {
            let reached = self.elapsed.saturating_add(delta);
            if reached.at_least(self.duration) {
                self.elapsed = self.duration;
                self.finished = true;
                self.just_finished = true;
            } else {
                self.elapsed = reached;
            }
        }
    }

    /// Whether the timer has run out.
    pub fn finished(&self) -> (b: bool)
        ensures
            b == self@.finished,
    {
        self.finished
    }

    /// Whether the timer ran out in the last tick.
    pub fn just_finished(&self) -> (b: bool)
        ensures
            b == self@.just_finished,
    {
        self.just_finished
    }

    /// The time the timer was made for.
    pub fn duration(&self) -> (d: Span)
        ensures
            d@ == self@.duration,
    {
        self.duration
    }

    /// The time that has run.
    pub fn elapsed(&self) -> (d: Span)
        ensures
            d@ == self@.elapsed,
    {
        self.elapsed
    }
}

} // verus!

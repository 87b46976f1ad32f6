//! The step counter: one step per committed piece.

use crate::assets::options::{GameOptions, TimerRate};
use crate::components::timer::{PlacementTimer, TimerView};
use crate::time::Span;
use vstd::arithmetic::div_mod::{lemma_fundamental_div_mod, lemma_fundamental_div_mod_converse};
use vstd::prelude::*;

verus! {

/// A part of a whole: `num` out of `den`, with `num <= den` and `den > 0`.
#[derive(Clone, Copy, Debug, PartialEq, Eq, Structural, Hash)]
pub struct Ratio {
    pub num: usize,
    pub den: usize,
}

/// The placement time at `step` under `rate`, in nanoseconds.
///
/// A progressive rate goes in a straight line from the start rate to the end
/// rate, rounded down to the nanosecond; an endless rate loses `delta` with
/// every step past the delay and stops at the end rate.
pub open spec fn duration_at(step: int, rate: TimerRate) -> int {
    match rate {
        TimerRate::Constant(d) => d@ as int,
        TimerRate::Progressive { start_rate, end_rate, steps, delay } => {
            if step <= delay {
                start_rate@ as int
            } else if step - delay >= steps {
                end_rate@ as int
            } else {
                start_rate@ + ((end_rate@ - start_rate@) * (step - delay)) / (steps as int)
            }
        },
        TimerRate::Endless { start_rate, end_rate, delta, delay } => {
            let past = if step <= delay {
                0
            } else {
                step - delay
            };
            let reduced = start_rate@ - delta@ * past;
            if reduced < end_rate@ {
                end_rate@ as int
            } else {
                reduced
            }
        },
    }
}

/// How far the ramp of `rate` has come at `step`; `None` for a rate that
/// never ends.
pub open spec fn progress_at(step: int, rate: TimerRate) -> Option<Ratio> {
    match rate {
        TimerRate::Constant(_) => Some(Ratio { num: 1, den: 1 }),
        TimerRate::Progressive { start_rate, end_rate, steps, delay } => {
            if step <= delay {
                Some(Ratio { num: 0, den: 1 })
            } else if step - delay >= steps {
                Some(Ratio { num: 1, den: 1 })
            } else {
                Some(Ratio { num: (step - delay) as usize, den: steps })
            }
        },
        TimerRate::Endless { .. } => None,
    }
}

/// The whole part of `a * k / s` for a straight line that falls: what is
/// taken off is rounded up, so that the result is rounded down.
proof fn lemma_falling_line(a: int, s: int, q: int, r: int)
    requires
        0 <= a,
        0 < s,
        q == a / s,
        r == a % s,
    ensures
        (-a) / s == (if r == 0 {
            -q
        } else {
            -q - 1
        }),
{
    lemma_fundamental_div_mod(a, s);
    if r == 0 {
        assert(-a == s * (-q) + 0) by (nonlinear_arith)
            requires
                a == s * q + r,
                r == 0,
        ;
        lemma_fundamental_div_mod_converse(-a, s, -q, 0);
    } else {
        assert(-a == s * (-q - 1) + (s - r)) by (nonlinear_arith)
            requires
                a == s * q + r,
        ;
        lemma_fundamental_div_mod_converse(-a, s, -q - 1, s - r);
    }
}

/// The time a piece placed at `step` gets under `rate`.
pub fn duration_for(step: usize, rate: TimerRate) -> (d: Span)
    ensures
        d@ == duration_at(step as int, rate),
{
    match rate {
        TimerRate::Constant(d) => d,
        TimerRate::Progressive { start_rate, end_rate, steps, delay } => {
            if step <= delay {
                start_rate
            } else if step - delay >= steps {
                end_rate
            } else {
                let k: u128 = (step - delay) as u128;
                let s: u128 = steps as u128;
                let start: u64 = start_rate.as_nanos();
                let end: u64 = end_rate.as_nanos();
                if end >= start {
                    let diff: u128 = (end - start) as u128;
                    assert(diff * k <= diff * s) by (nonlinear_arith)
                        requires
                            k <= s,
                            0 <= diff,
                    ;
                    assert(diff * s <= 0xffff_ffff_ffff_ffff * 0xffff_ffff_ffff_ffff)
                        by (nonlinear_arith)
                        requires
                            0 <= diff <= 0xffff_ffff_ffff_ffff,
                            0 <= s <= 0xffff_ffff_ffff_ffff,
                    ;
                    let a: u128 = diff * k;
                    let up: u128 = a / s;
                    assert(up <= diff) by {
                        lemma_fundamental_div_mod(a as int, s as int);
                        assert(up <= diff) by (nonlinear_arith)
                            requires
                                a == s * up + (a % s),
                                0 <= a % s,
                                a <= diff * s,
                                0 < s,
                        ;
                    }
                    Span::from_nanos(start + up as u64)
                } else {
                    let diff: u128 = (start - end) as u128;
                    assert(diff * k <= diff * s) by (nonlinear_arith)
                        requires
                            k <= s,
                            0 <= diff,
                    ;
                    assert(diff * s <= 0xffff_ffff_ffff_ffff * 0xffff_ffff_ffff_ffff)
                        by (nonlinear_arith)
                        requires
                            0 <= diff <= 0xffff_ffff_ffff_ffff,
                            0 <= s <= 0xffff_ffff_ffff_ffff,
                    ;
                    let a: u128 = diff * k;
                    let q: u128 = a / s;
                    let r: u128 = a % s;
                    let down: u128 = if r == 0 {
                        q
                    } else {
                        q + 1
                    };
                    proof {
                        lemma_fundamental_div_mod(a as int, s as int);
                        assert(a < diff * s || diff == 0) by (nonlinear_arith)
                            requires
                                a == diff * k,
                                0 <= k < s,
                                0 <= diff,
                        ;
                        assert(down <= diff) by (nonlinear_arith)
                            requires
                                a == s * q + r,
                                0 <= r < s,
                                a < diff * s || diff == 0,
                                a == diff * k,
                                down <= q + 1,
                                r == 0 ==> down == q,
                        ;
                        lemma_falling_line(a as int, s as int, q as int, r as int);
                        assert((end_rate@ - start_rate@) * (step - delay) == -(a as int))
                            by (nonlinear_arith)
                            requires
                                a == diff * k,
                                diff == start_rate@ - end_rate@,
                                k == step - delay,
                        ;
                    }
                    Span::from_nanos(start - down as u64)
                }
            }
        },
        TimerRate::Endless { start_rate, end_rate, delta, delay } => {
            let past: u128 = if step <= delay {
                0
            } else {
                (step - delay) as u128
            };
            let start: u128 = start_rate.as_nanos() as u128;
            assert(delta@ * past <= 0xffff_ffff_ffff_ffff * 0xffff_ffff_ffff_ffff) by (nonlinear_arith)
                requires
                    0 <= delta@ <= 0xffff_ffff_ffff_ffff,
                    0 <= past <= 0xffff_ffff_ffff_ffff,
            ;
            let lost: u128 = delta.as_nanos() as u128 * past;
            if lost > start {
                end_rate
            } else {
                let reduced: u64 = (start - lost) as u64;
                if reduced < end_rate.as_nanos() {
                    end_rate
                } else {
                    Span::from_nanos(reduced)
                }
            }
        },
    }
}

/// Counts committed pieces. It only ever grows within a round and drives
/// the placement timer's difficulty ramp.
pub struct Step(usize);

impl View for Step {
    type V = nat;

    closed spec fn view(&self) -> nat {
        self.0 as nat
    }
}

impl Default for Step {
    fn default() -> (d: Step)
        ensures
            d@ == 0,
    {
        Step(0)
    }
}

impl Step {
    /// A counter at zero.
    pub fn new() -> (s: Self)
        ensures
            s@ == 0,
    {
        Step(0)
    }

    /// The number of steps taken so far.
    pub fn current(&self) -> (n: usize)
        ensures
            n == self@,
    {
        self.0
    }

    /// One step further.
    pub fn next(&mut self)
        requires
            old(self)@ < usize::MAX,
        ensures
            final(self)@ == old(self)@ + 1,
    {
        self.0 = self.0 + 1;
    }

    /// How far the ramp of the options' timer rate has come; `None` where
    /// the rate never ends.
    pub fn percent(&self, options: &GameOptions) -> (p: Option<Ratio>)
        ensures
            p == progress_at(self@ as int, options.timer_rate),
            p matches Some(r) ==> r.num <= r.den && r.den > 0,
    {
        match options.timer_rate {
            TimerRate::Constant(_) => Some(Ratio { num: 1, den: 1 }),
            TimerRate::Progressive { start_rate, end_rate, steps, delay } => {
                if self.0 <= delay {
                    Some(Ratio { num: 0, den: 1 })
                } else if self.0 - delay >= steps {
                    Some(Ratio { num: 1, den: 1 })
                } else {
                    Some(Ratio { num: self.0 - delay, den: steps })
                }
            },
            TimerRate::Endless { .. } => None,
        }
    }

    /// A fresh placement timer for a piece placed at this step.
    pub fn create_timer(&self, options: &GameOptions) -> (t: PlacementTimer)
        ensures
            t.wf(),
            t@ == (TimerView {
                duration: duration_at(self@ as int, options.timer_rate) as nat,
                elapsed: 0,
                finished: false,
                just_finished: false,
            }),
    {
        PlacementTimer::new(duration_for(self.0, options.timer_rate))
    }

    /// Back to zero.
    pub fn reset(&mut self)
        ensures
            final(self)@ == 0,
    {
        self.0 = 0;
    }
}

} // verus!

//! Timed, rule-gated edges between states.

use vstd::prelude::*;
use crate::pool::Handle;
use crate::pose::WEIGHT_ONE;

verus! {

/// A directed edge from one state to another that takes `transition_time`
/// ticks, gated by the rule parameter named `rule`.
#[derive(Clone, Debug, PartialEq, Eq)]
pub struct Transition {
    pub name: String,
    pub transition_time: u64,
    pub elapsed_time: u64,
    pub source: Handle,
    pub dest: Handle,
    pub rule: String,
    pub invert_rule: bool,
}

/// The elapsed time of a transition of length `duration` after `dt` more
/// ticks: it stops at the length.
pub open spec fn advance_spec(elapsed: u64, duration: u64, dt: u64) -> u64 {
    if elapsed + dt >= duration {
        duration
    } else {
        (elapsed + dt) as u64
    }
}

/// The elapsed time after `steps` advances of `dt` ticks each.
pub open spec fn advance_steps(elapsed: u64, duration: u64, dt: u64, steps: nat) -> u64
    decreases steps,
{
    if steps == 0 {
        elapsed
    } else {
        advance_spec(advance_steps(elapsed, duration, dt, (steps - 1) as nat), duration, dt)
    }
}

/// Elapsed time over length as a weight: `WEIGHT_ONE` when done.
pub open spec fn progress_spec(elapsed: u64, duration: u64) -> u64 {
    if elapsed >= duration {
        WEIGHT_ONE
    } else {
        (elapsed * WEIGHT_ONE / duration as int) as u64
    }
}

impl Transition {
    /// The elapsed time never passes the length.
    pub open spec fn wf(&self) -> bool {
        self.elapsed_time <= self.transition_time
    }

    pub open spec fn is_done_spec(&self) -> bool {
        self.elapsed_time >= self.transition_time
    }

    /// The weight of the destination's pose in the blend.
    pub open spec fn dest_weight(&self) -> u64 {
        if self.transition_time == 0 {
            1
        } else {
            self.elapsed_time
        }
    }

    /// The weight of the source's pose in the blend.
    pub open spec fn source_weight(&self) -> u64 {
        if self.transition_time == 0 {
            0
        } else {
            (self.transition_time - self.elapsed_time) as u64
        }
    }

    /// The sum of the two weights.
    pub open spec fn blend_divisor(&self) -> u64 {
        if self.transition_time == 0 {
            1
        } else {
            self.transition_time
        }
    }

    /// This transition with its elapsed time set to `elapsed`.
    pub open spec fn with_elapsed(self, elapsed: u64) -> Transition {
        Transition {
            name: self.name,
            transition_time: self.transition_time,
            elapsed_time: elapsed,
            source: self.source,
            dest: self.dest,
            rule: self.rule,
            invert_rule: self.invert_rule,
        }
    }

    /// A transition from `source` to `dest` that lasts `time` ticks and
    /// starts when the rule named `rule` holds.
    pub fn new(name: &str, source: Handle, dest: Handle, time: u64, rule: &str) -> (r: Transition)
        ensures
            r.wf(),
            r.name@ == name@,
            r.source == source,
            r.dest == dest,
            r.transition_time == time,
            r.elapsed_time == 0,
            r.rule@ == rule@,
            !r.invert_rule,
    {
        Transition {
            name: name.to_owned(),
            transition_time: time,
            elapsed_time: 0,
            source,
            dest,
            rule: rule.to_owned(),
            invert_rule: false,
        }
    }

    pub fn name(&self) -> (r: &str)
        ensures
            r@ == self.name@,
    {
        self.name.as_str()
    }

    pub fn transition_time(&self) -> (r: u64)
        ensures
            r == self.transition_time,
    {
        self.transition_time
    }

    pub fn elapsed_time(&self) -> (r: u64)
        ensures
            r == self.elapsed_time,
    {
        self.elapsed_time
    }

    pub fn source(&self) -> (r: Handle)
        ensures
            r == self.source,
    {
        self.source
    }

    pub fn dest(&self) -> (r: Handle)
        ensures
            r == self.dest,
    {
        self.dest
    }

    pub fn rule(&self) -> (r: &str)
        ensures
            r@ == self.rule@,
    {
        self.rule.as_str()
    }

    pub fn set_invert_rule(&mut self, invert: bool)
        ensures
            *final(self) == (Transition { invert_rule: invert, ..*old(self) }),
    {
        self.invert_rule = invert;
    }

    pub fn is_invert_rule(&self) -> (r: bool)
        ensures
            r == self.invert_rule,
    {
        self.invert_rule
    }

    pub fn is_done(&self) -> (r: bool)
        ensures
            r == self.is_done_spec(),
    {
        self.elapsed_time >= self.transition_time
    }

    /// Progress as a weight between zero and `WEIGHT_ONE`.
    pub fn blend_factor(&self) -> (r: u64)
        ensures
            r == progress_spec(self.elapsed_time, self.transition_time),
            r <= WEIGHT_ONE,
    {
        if self.elapsed_time >= self.transition_time {
            WEIGHT_ONE
        } else {
            let e: u128 = self.elapsed_time as u128;
            let d: u128 = self.transition_time as u128;
            let one: u128 = WEIGHT_ONE as u128;
            assert(e * one <= d * one) by (nonlinear_arith)
                requires
                    e <= d,
                    one >= 0,
            ;
            assert(d * one <= 0xffff_ffff_ffff_ffff * 1_000_000) by (nonlinear_arith)
                requires
                    d <= 0xffff_ffff_ffff_ffff,
                    one == 1_000_000,
            ;
            let q: u128 = e * one / d;
            assert(q <= one) by (nonlinear_arith)
                requires
                    q == (e * one) / (d as int),
                    e * one <= d * one,
                    d > 0,
            ;
            q as u64
        }
    }

    pub fn source_weight_value(&self) -> (r: u64)
        requires
            self.wf(),
        ensures
            r == self.source_weight(),
    {
        if self.transition_time == 0 {
            0
        } else {
            self.transition_time - self.elapsed_time
        }
    }

    pub fn dest_weight_value(&self) -> (r: u64)
        ensures
            r == self.dest_weight(),
    {
        if self.transition_time == 0 {
            1
        } else {
            self.elapsed_time
        }
    }

    pub fn blend_divisor_value(&self) -> (r: u64)
        ensures
            r == self.blend_divisor(),
            r > 0,
    {
        if self.transition_time == 0 {
            1
        } else {
            self.transition_time
        }
    }

    /// Sets the elapsed time back to zero.
    pub fn reset(&mut self)
        ensures
            *final(self) == old(self).with_elapsed(0),
            final(self).wf(),
    {
        self.elapsed_time = 0;
    }

    /// Lets `dt` ticks pass.
    pub fn update(&mut self, dt: u64)
        ensures
            *final(self) == old(self).with_elapsed(
                advance_spec(old(self).elapsed_time, old(self).transition_time, dt),
            ),
            final(self).wf(),
    {
        let room: u64 = if self.elapsed_time >= self.transition_time {
            0
        } else {
            self.transition_time - self.elapsed_time
        };
        if dt >= room {
            self.elapsed_time = self.transition_time;
        } else {
            self.elapsed_time = self.elapsed_time + dt;
        }
    }
}

} // verus!

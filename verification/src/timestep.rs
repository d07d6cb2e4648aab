//! The fixed-timestep accumulator: however long a frame took to render, the simulation advances
//! in whole steps of one fixed length.

use crate::components::DeltaTime;
use vstd::prelude::*;

verus! {

/// Frame time that has not been simulated yet, and the step in which it is spent.
pub struct FixedStep {
    step: u64,
    remaining: u64,
}

impl FixedStep {
    #[verifier::type_invariant]
    spec fn inv(self) -> bool {
        self.remaining < self.step
    }

    /// The simulation step, in nanoseconds.
    pub closed spec fn step(&self) -> u64 {
        self.step
    }

    /// The time that is left over for the next frame, in nanoseconds.
    pub closed spec fn remaining(&self) -> u64 {
        self.remaining
    }

    /// An accumulator that holds no time and spends it in steps of `step`.
    pub fn new(step: DeltaTime) -> (s: Self)
        requires
            step.0 > 0,
        ensures
            s.step() == step.0,
            s.remaining() == 0,
    {
        FixedStep { step: step.0, remaining: 0 }
    }

    /// The simulation step.
    pub fn delta_time(&self) -> (dt: DeltaTime)
        ensures
            dt.0 == self.step(),
            dt.0 > 0,
    {
        proof {
            use_type_invariant(self);
        }
        DeltaTime(self.step)
    }

    /// Takes in the `delta` nanoseconds that the last frame took and returns how many ticks
    /// are to be dispatched now: as many whole steps as fit into the time accumulated. What is
    /// less than a step stays for the next frame.
    pub fn advance(&mut self, delta: u64) -> (ticks: u64)
        ensures
            final(self).step() == old(self).step(),
            ticks == (old(self).remaining() + delta) / (old(self).step() as int),
            final(self).remaining() == (old(self).remaining() + delta) % (old(self).step() as int),
            final(self).remaining() < final(self).step(),
    {
        proof {
            use_type_invariant(&*self);
        }
        let step: u128 = self.step as u128;
        let total: u128 = self.remaining as u128 + delta as u128;
        let ticks: u128 = total / step;
        let rest: u128 = total % step;
        proof {
            vstd::arithmetic::div_mod::lemma_fundamental_div_mod(total as int, step as int);
            assert(ticks <= u64::MAX) by (nonlinear_arith)
                requires
                    total == step * ticks + rest,
                    0 <= rest,
                    0 < step,
                    total <= u64::MAX + step - 1,
            ;
        }
        self.remaining = rest as u64;
        ticks as u64
    }
}

} // verus!

//! The schedule of the resource regeneration rate.

use crate::world::World;
use crate::world::WorldView;
use vstd::prelude::*;

verus! {

/// Which regeneration rate is in force after the environment phase of a
/// step.
#[derive(Clone, Copy, Debug, PartialEq, Eq, Structural)]
pub enum RateSource {
    /// The rate of the step before.
    Unchanged,
    /// The rate configured for after the shift.
    Shifted,
    /// The regular rate of the cycle.
    Regular,
    /// The low rate of the cycle.
    Low,
}

impl<T: Copy, A, O> WorldView<T, A, O> {
    /// The rate in force after the environment phase. A cycle, where one is
    /// configured, decides alone: its phases of `environment_cycle_period`
    /// steps alternate between the regular and the low rate, starting with
    /// the regular one. Without a cycle the rate shifts at the step
    /// configured for the shift and is otherwise kept.
    pub open spec fn rate_source(self) -> RateSource {
        if self.config.environment_cycle_period > 0 {
            if (self.step_index / self.config.environment_cycle_period) % 2 == 0 {
                RateSource::Regular
            } else {
                RateSource::Low
            }
        } else if self.config.environment_shift_step > 0 && self.step_index
            == self.config.environment_shift_step {
            RateSource::Shifted
        } else {
            RateSource::Unchanged
        }
    }
}

impl<T: Copy, A, O> World<T, A, O> {
    /// The rate in force after the environment phase of the current step.
    pub fn rate_source(&self) -> (source: RateSource)
        ensures
            source == self@.rate_source(),
    {
        let step: usize = self.step_index();
        let period: usize = self.config().environment_cycle_period;
        let shift: usize = self.config().environment_shift_step;
        if period > 0 {
            if (step / period) % 2 == 0 {
                RateSource::Regular
            } else {
                RateSource::Low
            }
        } else if shift > 0 && step == shift {
            RateSource::Shifted
        } else {
            RateSource::Unchanged
        }
    }
}

} // verus!

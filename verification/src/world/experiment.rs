//! The schedule of an experiment: which runs are accepted and on which
//! steps a sample is taken.

use crate::world::metrics::LineageEvent;
use crate::world::ExperimentError;
use crate::world::World;
use crate::world::WorldView;
use crate::world::MAX_EXPERIMENT_SAMPLES;
use crate::world::MAX_EXPERIMENT_STEPS;
use vstd::prelude::*;

verus! {

/// Number of samples that a run of `steps` steps records when it samples
/// every `sample_every` steps and at its last step.
pub open spec fn estimated_samples(steps: nat, sample_every: nat) -> nat {
    if steps == 0 {
        0
    } else {
        (steps - 1) as nat / sample_every + 1
    }
}

/// The reason, if any, for which a run is refused.
pub open spec fn experiment_error(steps: usize, sample_every: usize) -> Option<ExperimentError> {
    if sample_every == 0 {
        Some(ExperimentError::InvalidSampleEvery)
    } else if steps > MAX_EXPERIMENT_STEPS {
        Some(ExperimentError::TooManySteps { max: MAX_EXPERIMENT_STEPS, actual: steps })
    } else if estimated_samples(steps as nat, sample_every as nat) > MAX_EXPERIMENT_SAMPLES {
        Some(
            ExperimentError::TooManySamples {
                max: MAX_EXPERIMENT_SAMPLES,
                actual: estimated_samples(steps as nat, sample_every as nat) as usize,
            },
        )
    } else {
        None
    }
}

/// Whether a sample is taken after step `step` of a run of `steps` steps.
pub open spec fn is_sample_step(step: nat, steps: nat, sample_every: nat) -> bool {
    step % sample_every == 0 || step == steps
}

/// Number of sample steps among the steps `1..=upto` of a run of `steps`
/// steps.
pub open spec fn samples_through(upto: nat, steps: nat, sample_every: nat) -> nat
    decreases upto,
{
    if upto == 0 {
        0
    } else {
        samples_through((upto - 1) as nat, steps, sample_every) + if is_sample_step(
            upto,
            steps,
            sample_every,
        ) {
            1nat
        } else {
            0nat
        }
    }
}

/// Accepts or refuses a run, and returns the number of samples that an
/// accepted run records.
pub fn plan_experiment(steps: usize, sample_every: usize) -> (r: Result<usize, ExperimentError>)
    ensures
        match experiment_error(steps, sample_every) {
            Some(e) => r == Err::<usize, ExperimentError>(e),
            None => r == Ok::<usize, ExperimentError>(
                estimated_samples(steps as nat, sample_every as nat) as usize,
            ),
        },
{
    if sample_every == 0 {
        return Err(ExperimentError::InvalidSampleEvery);
    }
    if steps > MAX_EXPERIMENT_STEPS {
        return Err(ExperimentError::TooManySteps { max: MAX_EXPERIMENT_STEPS, actual: steps });
    }
    let estimated: usize = if steps == 0 {
        0
    } else {
        (steps - 1) / sample_every + 1
    };
    if estimated > MAX_EXPERIMENT_SAMPLES {
        return Err(
            ExperimentError::TooManySamples { max: MAX_EXPERIMENT_SAMPLES, actual: estimated },
        );
    }
    Ok(estimated)
}

/// Whether a sample is taken after step `step` of a run of `steps` steps.
pub fn sample_due(step: usize, steps: usize, sample_every: usize) -> (due: bool)
    requires
        sample_every > 0,
    ensures
        due == is_sample_step(step as nat, steps as nat, sample_every as nat),
{
    step % sample_every == 0 || step == steps
}

/// Whether `step` is one of the steps at which a snapshot was asked for.
pub fn snapshot_due(snapshot_steps: &[usize], step: usize) -> (due: bool)
    ensures
        due == snapshot_steps@.contains(step),
{
    let mut k: usize = 0;
    while k < snapshot_steps.len()
        invariant
            k <= snapshot_steps@.len(),
            forall|j: int| 0 <= j < k ==> snapshot_steps@[j] != step,
        decreases snapshot_steps@.len() - k,
    {
        if snapshot_steps[k] == step {
            return true;
        }
        k = k + 1;
    }
    false
}

/// Before the last step, the sample steps are the multiples of the interval.
proof fn lemma_samples_before_last(upto: nat, steps: nat, sample_every: nat)
    requires
        sample_every > 0,
        upto < steps,
    ensures
        samples_through(upto, steps, sample_every) == upto / sample_every,
    decreases upto,
{
    if upto > 0 {
        lemma_samples_before_last((upto - 1) as nat, steps, sample_every);
        let m = (upto - 1) as int;
        let d = sample_every as int;
        assert((m + 1) / d == m / d + if (m + 1) % d == 0 {
            1int
        } else {
            0int
        }) by {
            vstd::arithmetic::div_mod::lemma_fundamental_div_mod(m, d);
            vstd::arithmetic::div_mod::lemma_fundamental_div_mod(m + 1, d);
            vstd::arithmetic::div_mod::lemma_mod_bound(m, d);
            vstd::arithmetic::div_mod::lemma_mod_bound(m + 1, d);
            let q = m / d;
            let q1 = (m + 1) / d;
            assert(q1 == q || q1 == q + 1) by (nonlinear_arith)
                requires
                    d > 0,
                    d * q1 + (m + 1) % d == d * q + m % d + 1,
                    0 <= (m + 1) % d < d,
                    0 <= m % d < d,
            ;
            if q1 != q {
                assert((m + 1) % d == 0) by (nonlinear_arith)
                    requires
                        q1 == q + 1,
                        d > 0,
                        d * q1 + (m + 1) % d == d * q + m % d + 1,
                        0 <= (m + 1) % d < d,
                        0 <= m % d < d,
                ;
            }
        }
    }
}

/// A run that samples every `sample_every` steps and at its last step takes
/// exactly the estimated number of samples.
pub proof fn lemma_sample_count(steps: nat, sample_every: nat)
    requires
        sample_every > 0,
    ensures
        samples_through(steps, steps, sample_every) == estimated_samples(steps, sample_every),
{
    if steps > 0 {
        lemma_samples_before_last((steps - 1) as nat, steps, sample_every);
    }
}

/// The progress of one accepted run.
pub struct ExperimentRun {
    steps: usize,
    sample_every: usize,
    done: usize,
    births_before: usize,
}

/// A run as contracts see it.
pub struct RunView {
    /// Number of steps of the run.
    pub steps: usize,
    /// Interval between two samples.
    pub sample_every: usize,
    /// Number of steps handed out so far.
    pub done: usize,
    /// Births that the world had seen when the run began.
    pub births_before: usize,
}

/// What the caller does next: run one step, and take a sample after it or
/// not.
#[derive(Clone, Copy, Debug, PartialEq, Eq, Structural)]
pub struct StepPlan {
    /// Number of the step within the run, counted from 1.
    pub step: usize,
    /// A sample is taken after the step.
    pub sample: bool,
}

impl View for ExperimentRun {
    type V = RunView;

    closed spec fn view(&self) -> RunView {
        RunView {
            steps: self.steps,
            sample_every: self.sample_every,
            done: self.done,
            births_before: self.births_before,
        }
    }
}

impl ExperimentRun {
    /// The run samples at a positive interval and has not handed out more
    /// steps than it has.
    pub open spec fn wf(&self) -> bool {
        self@.sample_every > 0 && self@.done <= self@.steps
    }

    /// Number of samples that the run records.
    pub fn estimated_samples(&self) -> (n: usize)
        requires
            self.wf(),
        ensures
            n == estimated_samples(self@.steps as nat, self@.sample_every as nat),
    {
        if self.steps == 0 {
            0
        } else {
            (self.steps - 1) / self.sample_every + 1
        }
    }

    /// Births that the world had seen when the run began.
    pub fn births_before(&self) -> (n: usize)
        ensures
            n == self@.births_before,
    {
        self.births_before
    }

    /// Hands out the next step of the run, or `None` once all steps have
    /// been handed out.
    pub fn next_step(&mut self) -> (plan: Option<StepPlan>)
        requires
            old(self).wf(),
        ensures
            final(self).wf(),
            final(self)@.steps == old(self)@.steps,
            final(self)@.sample_every == old(self)@.sample_every,
            final(self)@.births_before == old(self)@.births_before,
            old(self)@.done == old(self)@.steps ==> plan is None && final(self)@.done
                == old(self)@.done,
            old(self)@.done < old(self)@.steps ==> final(self)@.done == old(self)@.done + 1
                && plan == Some(
                StepPlan {
                    step: (old(self)@.done + 1) as usize,
                    sample: is_sample_step(
                        (old(self)@.done + 1) as nat,
                        old(self)@.steps as nat,
                        old(self)@.sample_every as nat,
                    ),
                },
            ),
    {
        if self.done == self.steps {
            return None;
        }
        self.done = self.done + 1;
        let sample: bool = sample_due(self.done, self.steps, self.sample_every);
        Some(StepPlan { step: self.done, sample })
    }
}

/// The discrete part of what a finished run reports.
#[derive(Debug)]
pub struct RunRecords {
    /// Organisms alive at the end.
    pub final_alive_count: usize,
    /// Ages at death, in the order of the deaths during the run.
    pub lifespans: Vec<usize>,
    /// Births during the run.
    pub total_reproduction_events: usize,
    /// The births of the run, in their order.
    pub lineage_events: Vec<LineageEvent>,
}

impl<T: Copy, A, O> World<T, A, O> {
    /// Accepts or refuses a run. An accepted run starts with the records of
    /// lifespans and births cleared; a refused one leaves the world as it
    /// was.
    pub fn begin_experiment(&mut self, steps: usize, sample_every: usize) -> (r: Result<
        ExperimentRun,
        ExperimentError,
    >)
        requires
            old(self).wf(),
        ensures
            final(self).wf(),
            match experiment_error(steps, sample_every) {
                Some(e) => r == Err::<ExperimentRun, ExperimentError>(e) && final(self)@
                    == old(self)@,
                None => {
                    &&& r is Ok
                    &&& r.unwrap().wf()
                    &&& r.unwrap()@ == (RunView {
                        steps,
                        sample_every,
                        done: 0,
                        births_before: old(self)@.total_births,
                    })
                    &&& final(self)@ == (WorldView {
                        lifespans: Seq::empty(),
                        lineage_events: Seq::empty(),
                        ..old(self)@
                    })
                },
            },
    {
        match plan_experiment(steps, sample_every) {
            Err(e) => Err(e),
            Ok(_) => {
                self.clear_records();
                let births_before: usize = self.total_births();
                Ok(ExperimentRun { steps, sample_every, done: 0, births_before })
            },
        }
    }

    /// Closes a run that began when the world had seen `births_before`
    /// births: hands over the records of the run and forgets them.
    pub fn close_experiment(&mut self, births_before: usize) -> (records: RunRecords)
        requires
            old(self).wf(),
            births_before <= old(self)@.total_births,
        ensures
            final(self).wf(),
            records.final_alive_count == old(self)@.alive_count(),
            records.lifespans@ == old(self)@.lifespans,
            records.total_reproduction_events == old(self)@.total_births - births_before,
            records.lineage_events@ == old(self)@.lineage_events,
            final(self)@ == (WorldView {
                lifespans: Seq::empty(),
                lineage_events: Seq::empty(),
                ..old(self)@
            }),
    {
        let final_alive_count: usize = self.alive_count();
        let total_reproduction_events: usize = self.total_births() - births_before;
        let lifespans = self.take_lifespans();
        let lineage_events = self.take_lineage_events();
        RunRecords { final_alive_count, lifespans, total_reproduction_events, lineage_events }
    }
}

} // verus!

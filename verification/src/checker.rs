//! The checking session: generation, one trial, and shrinking on a fault.

use crate::laws::{lemma_session_report_bounds, lemma_session_report_replays};
use crate::model::{model_clones_faithfully, run_steps, trial, Arbitrary, ModelState};
use crate::rng::{entropy_rng, seeded_generator, seeded_rng};
use crate::shrink::{session_outcome, shrink};
use rand::rngs::SmallRng;
use std::marker::PhantomData;
use vstd::prelude::*;

verus! {

/// Runs checking sessions for the model `M` from one pseudorandom source.
pub struct ModelChecker<M: ModelState> {
    rng: SmallRng,
    _m: PhantomData<M>,
}

/// A counterexample: `steps` applied in order to `state` ends in a fault
/// whose message is `error`.
#[derive(Debug)]
pub struct FailedState<M: ModelState> {
    pub state: M,
    pub steps: Vec<M::Step>,
    pub error: String,
}

/// Whether `report` is a counterexample that replays: its steps fault on its
/// state with its message, and at the last of them.
pub open spec fn replays<M: ModelState>(report: FailedState<M>) -> bool {
    trial(report.state, report.steps@) == Some((report.error@, report.steps@.len()))
}

/// Whether `r` is what a session on `state` and the candidate `steps` hands
/// back: success if the sequence goes through, else a report with that state
/// and the shrunk sequence and message.
pub open spec fn judged<M: ModelState>(
    state: M,
    steps: Seq<M::Step>,
    r: Result<(), FailedState<M>>,
) -> bool {
    match r {
        Ok(()) => session_outcome(state, steps) is None,
        Err(report) => report.state == state && session_outcome(state, steps) == Some(
            (report.steps@, report.error@),
        ),
    }
}

impl<M: ModelState> Default for ModelChecker<M> {
    /// A checker whose pseudorandom source is seeded by the operating system.
    fn default() -> Self {
        Self { rng: entropy_rng(), _m: PhantomData }
    }
}

impl<M: ModelState> ModelChecker<M> {
    /// The pseudorandom source that the next session will draw from.
    pub closed spec fn generator(&self) -> SmallRng {
        self.rng
    }

    /// A checker whose pseudorandom source is the one that `seed` determines,
    /// so that its sessions can be repeated: checkers made from equal seeds
    /// start from equal generators.
    pub fn seeded(seed: u64) -> (checker: Self)
        ensures
            checker.generator() == seeded_generator(seed),
    {
        Self { rng: seeded_rng(seed), _m: PhantomData }
    }

    /// Judges one state and one candidate sequence: runs the trial and, on a
    /// fault, cuts the sequence after the faulting step and shrinks it. The
    /// state reported is the one given, and no trial is run on the success
    /// path but the first.
    pub fn check(state: M, steps: Vec<M::Step>) -> (r: Result<(), FailedState<M>>)
        requires
            model_clones_faithfully::<M>(),
        ensures
            judged(state, steps@, r),
            r matches Err(report) ==> replays(report) && 1 <= report.steps.len() <= steps.len(),
    {
        let fresh = state.clone();
        assert(cloned(state, fresh));
        let (error, applied) = match run_steps(fresh, steps.as_slice()) {
            Ok(()) => {
                return Ok(());
            },
            Err(fault) => fault,
        };
        proof {
            lemma_session_report_bounds(state, steps@);
            lemma_session_report_replays(state, steps@);
        }
        let mut steps = steps;
        steps.truncate(applied);
        let (kept, last_error) = shrink(&state, steps, error);
        Err(FailedState { state, steps: kept, error: last_error })
    }

    /// Runs one session: draws a state and then `max_steps` steps, and judges
    /// them as `check` does. Whatever was drawn, a report handed back
    /// replays and holds between one and `max_steps` steps; with no steps to
    /// draw the session succeeds.
    pub fn run(&mut self, max_steps: usize) -> (r: Result<(), FailedState<M>>)
        requires
            model_clones_faithfully::<M>(),
        ensures
            exists|state: M, steps: Seq<M::Step>|
                steps.len() == max_steps && #[trigger] judged(state, steps, r),
            r matches Err(report) ==> replays(report) && 1 <= report.steps.len() <= max_steps,
            max_steps == 0 ==> r is Ok,
    {
        let state = M::gen(&mut self.rng);
        let mut steps: Vec<M::Step> = Vec::new();
        let mut drawn: usize = 0;
        while drawn < max_steps
            invariant
                drawn <= max_steps,
                steps.len() == drawn,
            decreases max_steps - drawn,
        {
            steps.push(M::Step::gen(&mut self.rng));
            drawn = drawn + 1;
        }
        let ghost candidate = steps@;
        let r = Self::check(state, steps);
        assert(judged(state, candidate, r));
        r
    }
}

} // verus!

//! Shrinking: one greedy pass that leaves out every step a failing sequence
//! can do without.

use crate::model::{clones_faithfully, model_clones_faithfully, run_steps, trial, ModelState};
use vstd::prelude::*;

verus! {

/// The outcome of a pass that starts at `cursor`: the sequence kept and the
/// message of the last fault seen. At each position the step there is left
/// out if the rest still faults, and then the next step has moved under the
/// cursor; else the step is kept and the cursor moves on.
pub open spec fn shrink_from<M: ModelState>(
    state: M,
    steps: Seq<M::Step>,
    message: Seq<char>,
    cursor: nat,
) -> (Seq<M::Step>, Seq<char>)
    decreases steps.len() - cursor,
{
    if cursor >= steps.len() {
        (steps, message)
    } else {
        let candidate = steps.remove(cursor as int);
        match trial(state, candidate) {
            Some((fault, _)) => shrink_from(state, candidate, fault, cursor),
            None => shrink_from(state, steps, message, cursor + 1),
        }
    }
}

/// The outcome of a whole pass over `steps`.
pub open spec fn minimized<M: ModelState>(state: M, steps: Seq<M::Step>, message: Seq<char>) -> (
    Seq<M::Step>,
    Seq<char>,
) {
    shrink_from(state, steps, message, 0)
}

/// What a session reports for a state and a candidate sequence: nothing if
/// the sequence goes through, else the sequence cut after the faulting step
/// and shrunk by one pass, with the message of the last fault seen.
pub open spec fn session_outcome<M: ModelState>(state: M, steps: Seq<M::Step>) -> Option<
    (Seq<M::Step>, Seq<char>),
> {
    match trial(state, steps) {
        None => None,
        Some((message, applied)) => Some(minimized(state, steps.take(applied as int), message)),
    }
}

/// No single step can be left out of `steps`: without any one of them the
/// trial on `state` succeeds.
pub open spec fn one_minimal<M: ModelState>(state: M, steps: Seq<M::Step>) -> bool {
    forall|i: int| 0 <= i < steps.len() ==> trial(state, #[trigger] steps.remove(i)) is None
}

/// Leaving a step out of a sequence that succeeds on `state` never makes it
/// fault.
pub open spec fn removal_closed<M: ModelState>(state: M) -> bool {
    forall|steps: Seq<M::Step>, i: int|
        0 <= i < steps.len() && trial(state, steps) is None ==> trial(
            state,
            #[trigger] steps.remove(i),
        ) is None
}

/// Makes one shrinking pass over `steps`, each attempt a trial on a fresh
/// copy of `state`. The pass makes as many attempts as `steps` has elements
/// on entry, which is what it takes for the cursor to reach the end: every
/// attempt either shortens the sequence or moves the cursor on.
pub fn shrink<M: ModelState>(state: &M, steps: Vec<M::Step>, message: String) -> (r: (
    Vec<M::Step>,
    String,
))
    requires
        model_clones_faithfully::<M>(),
    ensures
        (r.0@, r.1@) == minimized(*state, steps@, message@),
{
    let ghost whole = minimized(*state, steps@, message@);
    let mut kept = steps;
    let mut last_error = message;
    let attempts = kept.len();
    let mut index: usize = 0;
    let mut attempt: usize = 0;
    while attempt < attempts
        invariant
            model_clones_faithfully::<M>(),
            attempt <= attempts,
            index <= kept.len(),
            kept.len() - index == attempts - attempt,
            shrink_from(*state, kept@, last_error@, index as nat) == whole,
        decreases attempts - attempt,
    {
        let mut candidate = kept.clone();
        assert(candidate@ == kept@) by {
            assert forall|i: int| 0 <= i < kept.len() implies candidate@[i] == kept@[i] by {
                assert(cloned(kept@[i], candidate@[i]));
            }
            assert(candidate@ =~= kept@);
        }
        candidate.remove(index);
        let fresh = state.clone();
        assert(cloned(*state, fresh));
        match run_steps(fresh, candidate.as_slice()) {
            Ok(()) => {
                index = index + 1;
            },
            Err((error, _)) => {
                last_error = error;
                kept = candidate;
            },
        }
        attempt = attempt + 1;
    }
    (kept, last_error)
}

} // verus!

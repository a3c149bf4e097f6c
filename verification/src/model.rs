//! What a user implements to describe a system under test, and what it means
//! to run a sequence of steps against a state.

use rand::rngs::SmallRng;
use std::fmt::Debug;
use vstd::prelude::*;

verus! {

/// A type of which a value can be drawn from a pseudorandom source.
pub trait Arbitrary: 'static + Clone {
    /// Draws one value, consuming randomness from `rng`.
    fn gen(rng: &mut SmallRng) -> Self;
}

/// Cloning a `T` is faithful: whatever `clone` may return equals its original.
pub open spec fn clones_faithfully<T: Clone>() -> bool {
    forall|a: T, b: T| #[trigger] cloned(a, b) ==> a == b
}

/// Every trial works on copies of the state and of the steps, so both are
/// required to clone faithfully.
pub open spec fn model_clones_faithfully<M: ModelState>() -> bool {
    clones_faithfully::<M>() && clones_faithfully::<M::Step>()
}

/// A state machine: a state that a step either moves on or brings to a fault.
pub trait ModelState: Arbitrary + Clone + Debug {
    type Step: Arbitrary + Clone + Debug;

    /// What applying `step` to this state leads to: the next state, or a
    /// fault with the text it carries, if it carries any. The transition is a
    /// function of state and step alone. An implementation states its own;
    /// left as it is, nothing is known of the transition.
    open spec fn after(&self, step: Self::Step) -> Result<Self, Option<Seq<char>>> {
        arbitrary()
    }

    /// Applies `step`. Returns `Err` with the fault's text where an invariant
    /// of the model is violated; the state is then no longer meaningful.
    fn step(&mut self, step: Self::Step) -> (r: Result<(), Option<String>>)
        ensures
            match r {
                Ok(()) => old(self).after(step) == Ok::<Self, Option<Seq<char>>>(*final(self)),
                Err(payload) => old(self).after(step) == Err::<Self, Option<Seq<char>>>(
                    payload_view(payload),
                ),
            },
    ;
}

/// The text of a fault as a sequence of characters, if it has one.
pub open spec fn payload_view(payload: Option<String>) -> Option<Seq<char>> {
    match payload {
        Some(text) => Some(text@),
        None => None,
    }
}

/// The message reported for a fault that carries no text.
pub open spec fn placeholder_message() -> Seq<char> {
    "UNABLE TO SHOW RESULT OF PANIC."@
}

/// The message reported for a fault: its own text, or the placeholder.
pub open spec fn message_of(payload: Option<Seq<char>>) -> Seq<char> {
    match payload {
        Some(text) => text,
        None => placeholder_message(),
    }
}

/// The outcome of applying `steps[from..]` in order to `state`, where `from`
/// steps were applied before: `None` if every step goes through, else the
/// message of the first fault and the count of steps applied, the faulting
/// one included.
pub open spec fn trial_from<M: ModelState>(state: M, steps: Seq<M::Step>, from: nat) -> Option<
    (Seq<char>, nat),
>
    decreases steps.len() - from,
{
    if from >= steps.len() {
        None
    } else {
        match state.after(steps[from as int]) {
            Ok(next) => trial_from(next, steps, from + 1),
            Err(payload) => Some((message_of(payload), from + 1)),
        }
    }
}

/// The outcome of one trial: `steps` applied in order to `state`.
pub open spec fn trial<M: ModelState>(state: M, steps: Seq<M::Step>) -> Option<(Seq<char>, nat)> {
    trial_from(state, steps, 0)
}

/// Turns what a fault carried into the message to report.
pub fn extract_panic_payload(payload: Option<String>) -> (message: String)
    ensures
        message@ == message_of(payload_view(payload)),
{
    match payload {
        Some(text) => text,
        None => "UNABLE TO SHOW RESULT OF PANIC.".to_owned(),
    }
}

/// Runs one trial: applies `steps` in order to `state` until one faults.
/// Returns the fault's message and the count of steps applied, the faulting
/// one included.
pub fn run_steps<M: ModelState>(state: M, steps: &[M::Step]) -> (r: Result<(), (String, usize)>)
    requires
        clones_faithfully::<M::Step>(),
    ensures
        match r {
            Ok(()) => trial(state, steps@) is None,
            Err((message, applied)) => trial(state, steps@) == Some((message@, applied as nat)),
        },
{
    let mut current = state;
    let mut i: usize = 0;
    while i < steps.len()
        invariant
            i <= steps.len(),
            clones_faithfully::<M::Step>(),
            trial(state, steps@) == trial_from(current, steps@, i as nat),
        decreases steps.len() - i,
    {
        let step = steps[i].clone();
        assert(cloned(steps@[i as int], step));
        i = i + 1;
        match current.step(step) {
            Ok(()) => {},
            Err(payload) => {
                return Err((extract_panic_payload(payload), i));
            },
        }
    }
    Ok(())
}

} // verus!

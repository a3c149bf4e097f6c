//! Properties of trials and of shrinking.

use crate::model::{trial, trial_from, ModelState};
use crate::shrink::{minimized, one_minimal, removal_closed, session_outcome, shrink_from};
use vstd::prelude::*;

verus! {

/// A trial that faults counts at least one step and no more than there are:
/// the count lies above `from` and within the sequence.
pub proof fn lemma_trial_count_bounds<M: ModelState>(state: M, steps: Seq<M::Step>, from: nat)
    ensures
        trial_from(state, steps, from) matches Some((_, applied)) ==> from < applied
            <= steps.len(),
    decreases steps.len() - from,
{
    if from < steps.len() {
        match state.after(steps[from as int]) {
            Ok(next) => lemma_trial_count_bounds(next, steps, from + 1),
            Err(_) => {},
        }
    }
}

/// The steps after the faulting one play no part: cut down to the steps that
/// were applied, a faulting sequence faults at the same step with the same
/// message.
pub proof fn lemma_truncation_keeps_fault<M: ModelState>(
    state: M,
    steps: Seq<M::Step>,
    from: nat,
)
    ensures
        trial_from(state, steps, from) matches Some((_, applied)) ==> trial_from(
            state,
            steps.take(applied as int),
            from,
        ) == trial_from(state, steps, from),
    decreases steps.len() - from,
{
    if let Some((message, applied)) = trial_from(state, steps, from) {
        lemma_trial_count_bounds(state, steps, from);
        let cut = steps.take(applied as int);
        assert(cut[from as int] == steps[from as int]);
        match state.after(steps[from as int]) {
            Ok(next) => {
                lemma_trial_count_bounds(next, steps, from + 1);
                lemma_truncation_keeps_fault(next, steps, from + 1);
            },
            Err(_) => {},
        }
    }
}

/// The count of a faulting trial marks the first fault: the steps before the
/// faulting one go through.
pub proof fn lemma_steps_before_fault_go_through<M: ModelState>(
    state: M,
    steps: Seq<M::Step>,
    from: nat,
)
    ensures
        trial_from(state, steps, from) matches Some((_, applied)) ==> trial_from(
            state,
            steps.take(applied - 1),
            from,
        ) is None,
    decreases steps.len() - from,
{
    if let Some((_, applied)) = trial_from(state, steps, from) {
        lemma_trial_count_bounds(state, steps, from);
        match state.after(steps[from as int]) {
            Ok(next) => {
                lemma_trial_count_bounds(next, steps, from + 1);
                lemma_steps_before_fault_go_through(next, steps, from + 1);
                assert(steps.take(applied - 1)[from as int] == steps[from as int]);
            },
            Err(_) => {},
        }
    }
}

/// A trial of no steps succeeds, whatever the state.
pub proof fn lemma_empty_trial_succeeds<M: ModelState>(state: M, steps: Seq<M::Step>)
    requires
        steps.len() == 0,
    ensures
        trial(state, steps) is None,
{
}

/// A shrinking pass never lengthens the sequence.
pub proof fn lemma_shrink_no_longer<M: ModelState>(
    state: M,
    steps: Seq<M::Step>,
    message: Seq<char>,
    cursor: nat,
)
    ensures
        shrink_from(state, steps, message, cursor).0.len() <= steps.len(),
    decreases steps.len() - cursor,
{
    if cursor < steps.len() {
        let candidate = steps.remove(cursor as int);
        match trial(state, candidate) {
            Some((fault, _)) => lemma_shrink_no_longer(state, candidate, fault, cursor),
            None => lemma_shrink_no_longer(state, steps, message, cursor + 1),
        }
    }
}

/// Replay: if `steps` faults on `state` with `message`, then what a shrinking
/// pass hands back still faults on `state`, and with the message handed back.
pub proof fn lemma_shrink_keeps_fault<M: ModelState>(
    state: M,
    steps: Seq<M::Step>,
    message: Seq<char>,
    cursor: nat,
)
    requires
        trial(state, steps) matches Some((fault, _)) && fault == message,
    ensures
        ({
            let (kept, last) = shrink_from(state, steps, message, cursor);
            trial(state, kept) matches Some((fault, _)) && fault == last
        }),
    decreases steps.len() - cursor,
{
    if cursor < steps.len() {
        let candidate = steps.remove(cursor as int);
        match trial(state, candidate) {
            Some((fault, _)) => lemma_shrink_keeps_fault(state, candidate, fault, cursor),
            None => lemma_shrink_keeps_fault(state, steps, message, cursor + 1),
        }
    }
}

/// A pass from `cursor` changes nothing exactly when no step at or after
/// `cursor` can be left out: the sequence without it succeeds.
pub proof fn lemma_shrink_fixed_point<M: ModelState>(
    state: M,
    steps: Seq<M::Step>,
    message: Seq<char>,
    cursor: nat,
)
    ensures
        shrink_from(state, steps, message, cursor) == (steps, message) <==> (forall|i: int|
            cursor <= i < steps.len() ==> trial(state, #[trigger] steps.remove(i)) is None),
    decreases steps.len() - cursor,
{
    if cursor < steps.len() {
        let candidate = steps.remove(cursor as int);
        match trial(state, candidate) {
            Some((fault, _)) => {
                lemma_shrink_no_longer(state, candidate, fault, cursor);
            },
            None => {
                lemma_shrink_fixed_point(state, steps, message, cursor + 1);
            },
        }
    }
}

/// A second pass over the outcome of a first changes nothing, provided that
/// the first left a sequence from which no single step can be left out. A
/// pass changes nothing on exactly those sequences, so the condition leaves
/// out only the inputs on which a second pass does shorten the sequence.
pub proof fn lemma_second_pass_changes_nothing<M: ModelState>(
    state: M,
    steps: Seq<M::Step>,
    message: Seq<char>,
)
    requires
        one_minimal(state, minimized(state, steps, message).0),
    ensures
        ({
            let first = minimized(state, steps, message);
            minimized(state, first.0, first.1) == first
        }),
{
    let first = minimized(state, steps, message);
    lemma_shrink_fixed_point(state, first.0, first.1, 0);
}

/// A fault is decided by the steps up to it: two sequences that agree on the
/// steps applied before and at the fault of the first fault alike.
pub proof fn lemma_fault_depends_on_prefix<M: ModelState>(
    state: M,
    a: Seq<M::Step>,
    b: Seq<M::Step>,
    from: nat,
)
    requires
        trial_from(state, a, from) matches Some((_, applied)) && applied <= b.len() && (forall|
            i: int,
        |
            from <= i < applied ==> a[i] == b[i]),
    ensures
        trial_from(state, b, from) == trial_from(state, a, from),
    decreases a.len() - from,
{
    lemma_trial_count_bounds(state, a, from);
    match state.after(a[from as int]) {
        Ok(next) => {
            lemma_trial_count_bounds(next, a, from + 1);
            lemma_fault_depends_on_prefix(next, a, b, from + 1);
        },
        Err(_) => {},
    }
}

/// If `steps` faults on `state` with `message`, and not before `cursor`
/// steps are applied, then what the pass from `cursor` hands back faults at
/// its last step, with the message handed back: no step is left after the
/// fault.
pub proof fn lemma_shrink_ends_at_fault<M: ModelState>(
    state: M,
    steps: Seq<M::Step>,
    message: Seq<char>,
    cursor: nat,
)
    requires
        cursor <= steps.len(),
        trial(state, steps) matches Some((fault, applied)) && fault == message && applied
            >= cursor,
    ensures
        ({
            let (kept, last) = shrink_from(state, steps, message, cursor);
            trial(state, kept) == Some((last, kept.len()))
        }),
    decreases steps.len() - cursor,
{
    lemma_trial_count_bounds(state, steps, 0);
    if cursor < steps.len() {
        let applied = trial(state, steps).unwrap().1;
        let candidate = steps.remove(cursor as int);
        match trial(state, candidate) {
            Some((fault, count)) => {
                lemma_trial_count_bounds(state, candidate, 0);
                if count < cursor {
                    lemma_fault_depends_on_prefix(state, candidate, steps, 0);
                }
                lemma_shrink_ends_at_fault(state, candidate, fault, cursor);
            },
            None => {
                if applied == cursor {
                    lemma_fault_depends_on_prefix(state, steps, candidate, 0);
                }
                lemma_shrink_ends_at_fault(state, steps, message, cursor + 1);
            },
        }
    }
}

/// Where leaving a step out of a succeeding sequence never makes it fault,
/// a pass from `cursor` over a sequence whose steps before `cursor` are all
/// needed hands back a sequence from which no single step can be left out.
pub proof fn lemma_shrink_is_one_minimal<M: ModelState>(
    state: M,
    steps: Seq<M::Step>,
    message: Seq<char>,
    cursor: nat,
)
    requires
        removal_closed(state),
        cursor <= steps.len(),
        forall|j: int| 0 <= j < cursor ==> trial(state, #[trigger] steps.remove(j)) is None,
    ensures
        one_minimal(state, shrink_from(state, steps, message, cursor).0),
    decreases steps.len() - cursor,
{
    if cursor < steps.len() {
        let candidate = steps.remove(cursor as int);
        match trial(state, candidate) {
            Some((fault, _)) => {
                assert forall|j: int| 0 <= j < cursor implies trial(
                    state,
                    #[trigger] candidate.remove(j),
                ) is None by {
                    let without = steps.remove(j);
                    assert(trial(state, without) is None);
                    assert(candidate.remove(j) =~= without.remove(cursor - 1));
                    assert(trial(state, without.remove(cursor - 1)) is None);
                }
                lemma_shrink_is_one_minimal(state, candidate, fault, cursor);
            },
            None => {
                lemma_shrink_is_one_minimal(state, steps, message, cursor + 1);
            },
        }
    }
}

/// Where leaving a step out of a succeeding sequence never makes it fault,
/// a second pass over the outcome of a first changes nothing.
pub proof fn lemma_second_pass_changes_nothing_when_removal_closed<M: ModelState>(
    state: M,
    steps: Seq<M::Step>,
    message: Seq<char>,
)
    requires
        removal_closed(state),
    ensures
        ({
            let first = minimized(state, steps, message);
            minimized(state, first.0, first.1) == first
        }),
{
    lemma_shrink_is_one_minimal(state, steps, message, 0);
    lemma_second_pass_changes_nothing(state, steps, message);
}

/// The sequence that a session reports is no longer than the sequence cut
/// after the fault, which is no longer than the candidate sequence; and it
/// is not empty.
pub proof fn lemma_session_report_bounds<M: ModelState>(state: M, steps: Seq<M::Step>)
    ensures
        session_outcome(state, steps) matches Some((kept, _)) ==> 1 <= kept.len()
            <= trial(state, steps).unwrap().1 <= steps.len(),
{
    if let Some((message, applied)) = trial(state, steps) {
        let cut = steps.take(applied as int);
        lemma_trial_count_bounds(state, steps, 0);
        lemma_shrink_no_longer(state, cut, message, 0);
        lemma_session_report_replays(state, steps);
    }
}

/// What a session reports replays: the reported sequence, applied to the
/// state of the session, faults with the reported message, and at its last
/// step.
pub proof fn lemma_session_report_replays<M: ModelState>(state: M, steps: Seq<M::Step>)
    ensures
        session_outcome(state, steps) matches Some((kept, last)) ==> trial(state, kept) == Some(
            (last, kept.len()),
        ),
{
    if let Some((message, applied)) = trial(state, steps) {
        let cut = steps.take(applied as int);
        lemma_trial_count_bounds(state, steps, 0);
        lemma_truncation_keeps_fault(state, steps, 0);
        lemma_shrink_ends_at_fault(state, cut, message, 0);
    }
}

/// A session succeeds exactly when the candidate sequence goes through, and
/// so whenever there are no steps.
pub proof fn lemma_session_succeeds_iff_trial_does<M: ModelState>(state: M, steps: Seq<M::Step>)
    ensures
        session_outcome(state, steps) is None <==> trial(state, steps) is None,
        steps.len() == 0 ==> session_outcome(state, steps) is None,
{
}

} // verus!

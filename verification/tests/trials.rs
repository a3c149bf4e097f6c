use model_checker::model::{extract_panic_payload, run_steps};
use model_checker::rand::rngs::SmallRng;
use model_checker::rand::Rng;
use model_checker::shrink::shrink;
use model_checker::{Arbitrary, FailedState, ModelChecker, ModelState};

const PLACEHOLDER: &str = "UNABLE TO SHOW RESULT OF PANIC.";

#[derive(Clone, Debug)]
struct TestModel;

#[derive(Clone, Debug, PartialEq)]
struct TestStep(bool);

impl Arbitrary for TestModel {
    fn gen(_: &mut SmallRng) -> Self {
        Self
    }
}

impl Arbitrary for TestStep {
    fn gen(rng: &mut SmallRng) -> Self {
        Self(rng.gen_bool(0.5))
    }
}

impl ModelState for TestModel {
    type Step = TestStep;

    fn step(&mut self, step: Self::Step) -> Result<(), Option<String>> {
        if step.0 {
            Ok(())
        } else {
            Err(Some("assertion failed: step.0".to_owned()))
        }
    }
}

/// A running total that must stay at or under ten.
#[derive(Clone, Debug, PartialEq)]
struct Total(u32);

#[derive(Clone, Debug, PartialEq)]
struct Add(u32);

impl Arbitrary for Total {
    fn gen(rng: &mut SmallRng) -> Self {
        Total(rng.gen_range(0..4))
    }
}

impl Arbitrary for Add {
    fn gen(rng: &mut SmallRng) -> Self {
        Add(rng.gen_range(0..6))
    }
}

impl ModelState for Total {
    type Step = Add;

    fn step(&mut self, step: Add) -> Result<(), Option<String>> {
        self.0 += step.0;
        if self.0 > 10 {
            Err(Some(format!("total is {}", self.0)))
        } else {
            Ok(())
        }
    }
}

/// A model that faults on every step, without a message.
#[derive(Clone, Debug)]
struct Mute;

#[derive(Clone, Debug)]
struct Poke;

impl Arbitrary for Mute {
    fn gen(_: &mut SmallRng) -> Self {
        Mute
    }
}

impl Arbitrary for Poke {
    fn gen(_: &mut SmallRng) -> Self {
        Poke
    }
}

impl ModelState for Mute {
    type Step = Poke;

    fn step(&mut self, _: Poke) -> Result<(), Option<String>> {
        Err(None)
    }
}

/// A lock: `Trip` faults unless the lock was armed and never tainted.
#[derive(Clone, Debug)]
struct Lock {
    armed: bool,
    tainted: bool,
}

#[derive(Clone, Debug, PartialEq)]
enum Key {
    Taint,
    Arm,
    Trip,
}

impl Arbitrary for Lock {
    fn gen(_: &mut SmallRng) -> Self {
        Lock { armed: false, tainted: false }
    }
}

impl Arbitrary for Key {
    fn gen(rng: &mut SmallRng) -> Self {
        match rng.gen_range(0..3) {
            0 => Key::Taint,
            1 => Key::Arm,
            _ => Key::Trip,
        }
    }
}

impl ModelState for Lock {
    type Step = Key;

    fn step(&mut self, step: Key) -> Result<(), Option<String>> {
        match step {
            Key::Taint => self.tainted = true,
            Key::Arm => self.armed = true,
            Key::Trip => {
                if !self.armed || self.tainted {
                    return Err(Some(format!("tripped: armed {} tainted {}", self.armed, self.tainted)));
                }
            }
        }
        Ok(())
    }
}

fn report<M: ModelState>(result: Result<(), FailedState<M>>) -> FailedState<M> {
    match result {
        Ok(()) => panic!("the session found no fault"),
        Err(report) => report,
    }
}

#[test]
fn example() {
    let mut checker = ModelChecker::<TestModel>::default();
    for _ in 0..10 {
        let result = checker.run(3);
        println!("{:#?}", result);
        assert!(result
            .map(|_| true)
            .unwrap_or_else(|fail| { fail.steps.iter().filter(|step| !step.0).count() == 1 }));
    }
}

#[test]
fn failing_session_reports_the_single_false_step() {
    for seed in 0..50 {
        let mut checker = ModelChecker::<TestModel>::seeded(seed);
        if let Err(fail) = checker.run(3) {
            assert_eq!(fail.steps, vec![TestStep(false)]);
            assert_eq!(fail.error, "assertion failed: step.0");
        }
    }
}

#[test]
fn trial_counts_the_failing_step() {
    let steps = vec![TestStep(true), TestStep(false), TestStep(true)];
    let r = run_steps(TestModel, &steps);
    assert_eq!(r, Err(("assertion failed: step.0".to_owned(), 2)));
}

#[test]
fn trial_counts_a_first_step_that_fails() {
    let r = run_steps(TestModel, &[TestStep(false)]);
    assert_eq!(r, Err(("assertion failed: step.0".to_owned(), 1)));
}

#[test]
fn trial_of_nothing_succeeds() {
    assert_eq!(run_steps(TestModel, &[]), Ok(()));
    assert_eq!(run_steps(Mute, &[]), Ok(()));
}

#[test]
fn trial_that_goes_through_succeeds() {
    let r = run_steps(Total(0), &[Add(5), Add(5), Add(0)]);
    assert_eq!(r, Ok(()));
}

#[test]
fn trial_carries_the_state_from_step_to_step() {
    let r = run_steps(Total(1), &[Add(5), Add(4), Add(3), Add(9)]);
    assert_eq!(r, Err(("total is 13".to_owned(), 3)));
}

#[test]
fn payload_with_text_is_the_message() {
    assert_eq!(extract_panic_payload(Some("boom".to_owned())), "boom");
    assert_eq!(extract_panic_payload(Some(String::new())), "");
}

#[test]
fn payload_without_text_gets_the_placeholder() {
    assert_eq!(extract_panic_payload(None), PLACEHOLDER);
    assert_eq!(run_steps(Mute, &[Poke, Poke]), Err((PLACEHOLDER.to_owned(), 1)));
}

#[test]
fn check_succeeds_without_a_fault() {
    let r = ModelChecker::check(TestModel, vec![TestStep(true), TestStep(true)]);
    assert!(r.is_ok());
}

#[test]
fn check_cuts_after_the_fault_and_shrinks() {
    let steps = vec![TestStep(true), TestStep(false), TestStep(true), TestStep(false)];
    let fail = report(ModelChecker::check(TestModel, steps));
    assert_eq!(fail.steps, vec![TestStep(false)]);
    assert_eq!(fail.error, "assertion failed: step.0");
}

#[test]
fn check_reports_the_state_it_was_given() {
    let steps = vec![Add(2), Add(3), Add(1), Add(4), Add(5)];
    let fail = report(ModelChecker::check(Total(3), steps));
    assert_eq!(fail.state, Total(3));
    assert_eq!(fail.steps, vec![Add(3), Add(1), Add(4)]);
    assert_eq!(fail.error, "total is 11");
}

#[test]
fn report_replays() {
    for seed in 0..40 {
        let mut checker = ModelChecker::<Total>::seeded(seed);
        if let Err(fail) = checker.run(12) {
            assert!(run_steps(fail.state.clone(), &fail.steps).is_err());
            let again = run_steps(fail.state.clone(), &fail.steps);
            assert_eq!(again, Err((fail.error.clone(), fail.steps.len())));
        }
    }
}

#[test]
fn report_is_no_longer_than_the_budget() {
    let mut failures = 0;
    for seed in 0..40 {
        let mut checker = ModelChecker::<Total>::seeded(seed);
        if let Err(fail) = checker.run(8) {
            failures += 1;
            assert!(!fail.steps.is_empty());
            assert!(fail.steps.len() <= 8);
        }
    }
    assert!(failures > 0);
}

#[test]
fn no_budget_no_failure() {
    for seed in 0..20 {
        assert!(ModelChecker::<Mute>::seeded(seed).run(0).is_ok());
        assert!(ModelChecker::<TestModel>::seeded(seed).run(0).is_ok());
    }
    assert!(ModelChecker::<Mute>::default().run(0).is_ok());
    assert!(ModelChecker::check(Mute, Vec::new()).is_ok());
}

#[test]
fn model_that_always_faults_shrinks_to_one_step() {
    let fail = report(ModelChecker::<Mute>::seeded(7).run(5));
    assert_eq!(fail.steps.len(), 1);
    assert_eq!(fail.error, PLACEHOLDER);
}

#[test]
fn same_seed_same_session() {
    let a = ModelChecker::<Total>::seeded(11).run(10);
    let b = ModelChecker::<Total>::seeded(11).run(10);
    assert_eq!(format!("{:?}", a), format!("{:?}", b));
}

#[test]
fn the_seed_decides_the_session() {
    let first = format!("{:?}", ModelChecker::<Total>::seeded(0).run(10));
    let mut differing = 0;
    for seed in 1..40 {
        let other = format!("{:?}", ModelChecker::<Total>::seeded(seed).run(10));
        let repeat = format!("{:?}", ModelChecker::<Total>::seeded(seed).run(10));
        assert_eq!(other, repeat);
        if other != first {
            differing += 1;
        }
    }
    assert!(differing > 0);
}

#[test]
fn shrink_keeps_the_message_of_the_last_fault() {
    let steps = vec![Add(2), Add(5), Add(1), Add(4)];
    let (kept, message) = shrink(&Total(3), steps, "total is 15".to_owned());
    assert_eq!(kept, vec![Add(5), Add(4)]);
    assert_eq!(message, "total is 12");
}

#[test]
fn shrink_keeps_the_first_message_when_nothing_can_go() {
    let steps = vec![Add(6), Add(5)];
    let (kept, message) = shrink(&Total(0), steps, "total is 11".to_owned());
    assert_eq!(kept, vec![Add(6), Add(5)]);
    assert_eq!(message, "total is 11");
}

#[test]
fn second_pass_leaves_a_minimal_sequence_alone() {
    let steps = vec![Add(2), Add(5), Add(1), Add(4)];
    let (kept, message) = shrink(&Total(3), steps, "total is 15".to_owned());
    let (again, message_again) = shrink(&Total(3), kept.clone(), message.clone());
    assert_eq!(again, kept);
    assert_eq!(message_again, message);
}

#[test]
fn second_pass_can_shorten_where_a_step_hid_a_fault() {
    let start = Lock { armed: false, tainted: false };
    let steps = vec![Key::Taint, Key::Arm, Key::Trip];
    let fail = report(ModelChecker::check(start.clone(), steps));
    assert_eq!(fail.steps, vec![Key::Taint, Key::Trip]);
    assert_eq!(fail.error, "tripped: armed false tainted true");
    let (again, message) = shrink(&start, fail.steps, fail.error);
    assert_eq!(again, vec![Key::Trip]);
    assert_eq!(message, "tripped: armed false tainted false");
}

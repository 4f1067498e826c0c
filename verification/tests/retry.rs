use std::cell::Cell;

use showcase_curator::retry::{retry, retry_step, RetryStep};

#[test]
fn retry_step_ends_on_success() {
    let step: RetryStep<u8, &str> = retry_step(0, Ok(7));
    assert!(matches!(step, RetryStep::Done(7)));
    let step: RetryStep<u8, &str> = retry_step(3, Ok(8));
    assert!(matches!(step, RetryStep::Done(8)));
}

#[test]
fn retry_step_counts_the_budget_down() {
    let step: RetryStep<u8, &str> = retry_step(3, Err("busy"));
    assert!(matches!(step, RetryStep::Again { number: 3, why: "busy", remaining: 2 }));
    let step: RetryStep<u8, &str> = retry_step(1, Err("busy"));
    assert!(matches!(step, RetryStep::Again { number: 1, why: "busy", remaining: 0 }));
}

#[test]
fn retry_step_gives_up_when_the_budget_is_used() {
    let step: RetryStep<u8, &str> = retry_step(0, Err("down"));
    assert!(matches!(step, RetryStep::Exhausted("down")));
}

#[test]
fn retry_returns_the_success_after_two_failures() {
    let calls = Cell::new(0u32);
    let report = retry(3, String::from("👍"), |emoji: String| {
        calls.set(calls.get() + 1);
        if calls.get() <= 2 {
            Err(format!("failure {} on {}", calls.get(), emoji))
        } else {
            Ok(calls.get())
        }
    });
    assert!(matches!(report.result, Ok(3)));
    assert_eq!(calls.get(), 3);
    assert_eq!(report.failures.len(), 2);
    assert_eq!(report.failures[0].number, 3);
    assert_eq!(report.failures[0].why, "failure 1 on 👍");
    assert_eq!(report.failures[1].number, 2);
    assert_eq!(report.failures[1].why, "failure 2 on 👍");
}

#[test]
fn retry_gives_up_after_one_attempt_more_than_the_budget() {
    for budget in [0usize, 1, 3, 5] {
        let calls = Cell::new(0usize);
        let report = retry(budget, 9u8, |_: u8| -> Result<(), usize> {
            calls.set(calls.get() + 1);
            Err(calls.get())
        });
        assert_eq!(calls.get(), budget + 1);
        assert_eq!(report.failures.len(), budget);
        match report.result {
            Err(reached) => {
                assert_eq!(reached.last, budget + 1);
                assert_eq!(reached.message(), "retry limit reached!");
            },
            Ok(()) => panic!("the call never went through"),
        }
    }
}

#[test]
fn retry_calls_once_when_the_first_attempt_goes_through() {
    let calls = Cell::new(0u32);
    let report = retry(3, 4u32, |n: u32| -> Result<u32, ()> {
        calls.set(calls.get() + 1);
        Ok(n * 2)
    });
    assert!(matches!(report.result, Ok(8)));
    assert_eq!(calls.get(), 1);
    assert!(report.failures.is_empty());
}

//! Trying a failing call again, a bounded number of times.

use vstd::prelude::*;

verus! {

/// How often a vote emoji is tried again before it is given up.
pub const RETRY_BUDGET: usize = 3;

/// What is said of a call that failed once more than it may.
pub const RETRY_LIMIT_REACHED: &'static str = "retry limit reached!";

/// What follows one attempt of a call that is tried again when it fails.
pub enum RetryStep<U, E> {
    /// The call went through, with this result.
    Done(U),
    /// The call failed and is tried again. `number` is what the failure is
    /// noted under, `remaining` how many attempts are allowed after the
    /// next one.
    Again { number: usize, why: E, remaining: usize },
    /// The call failed and may not be tried again.
    Exhausted(E),
}

/// The step that follows an attempt: done on success; on failure another
/// attempt, as long as `retry_number` is not used up.
pub open spec fn next_step<U, E>(retry_number: usize, outcome: Result<U, E>) -> RetryStep<U, E> {
    match outcome {
        Ok(value) => RetryStep::Done(value),
        Err(why) => if retry_number > 0 {
            RetryStep::Again { number: retry_number, why, remaining: (retry_number - 1) as usize }
        } else {
            RetryStep::Exhausted(why)
        },
    }
}

/// Decides what follows an attempt that ended in `outcome`, with
/// `retry_number` further attempts allowed.
pub fn retry_step<U, E>(retry_number: usize, outcome: Result<U, E>) -> (step: RetryStep<U, E>)
    ensures
        step == next_step(retry_number, outcome),
{
    match outcome {
        Ok(value) => RetryStep::Done(value),
        Err(why) => {
            if retry_number > 0 {
                RetryStep::Again { number: retry_number, why, remaining: retry_number - 1 }
            } else {
                RetryStep::Exhausted(why)
            }
        },
    }
}

/// A call that may be tried again `retry_number` times is given up at its
/// attempt number `retry_number + 1`, and not before: the failure of an
/// earlier attempt is followed by another attempt, and is noted under the
/// number of attempts that were left when it happened.
pub proof fn lemma_given_up_after_one_attempt_more<U, E>(retry_number: usize, attempt: nat, why: E)
    requires
        1 <= attempt <= retry_number + 1,
    ensures
        attempt <= retry_number ==> next_step::<U, E>(
            (retry_number - (attempt - 1)) as usize,
            Err(why),
        ) == (RetryStep::<U, E>::Again {
            number: (retry_number - (attempt - 1)) as usize,
            why,
            remaining: (retry_number - attempt) as usize,
        }),
        attempt == retry_number + 1 ==> next_step::<U, E>(0, Err(why)) == RetryStep::<
            U,
            E,
        >::Exhausted(why),
{
}

/// A call failed once more than it may.
pub struct RetryLimitReached<E> {
    /// The failure of the last attempt.
    pub last: E,
}

impl<E> RetryLimitReached<E> {
    /// What is said of it.
    pub fn message(&self) -> (text: &'static str)
        ensures
            text@ == RETRY_LIMIT_REACHED@,
    {
        RETRY_LIMIT_REACHED
    }
}

/// A failure that was followed by another attempt.
pub struct Failure<E> {
    /// How many attempts were left when it happened.
    pub number: usize,
    pub why: E,
}

/// How a call that was tried again on failure ended.
pub struct Retried<U, E> {
    /// What the call gave at last, or that it was given up.
    pub result: Result<U, RetryLimitReached<E>>,
    /// The failures that were followed by another attempt, in their order.
    pub failures: Vec<Failure<E>>,
}

/// `f` can be called on every copy of `argument`.
pub open spec fn takes<T: Clone, U, E, F: Fn(T) -> Result<U, E>>(f: F, argument: T) -> bool {
    forall|copy: T| cloned(argument, copy) ==> call_requires(f, (copy,))
}

/// `outcome` is what `f` can give on a copy of `argument`.
pub open spec fn gives<T: Clone, U, E, F: Fn(T) -> Result<U, E>>(
    f: F,
    argument: T,
    outcome: Result<U, E>,
) -> bool {
    exists|copy: T| cloned(argument, copy) && call_ensures(f, (copy,), outcome)
}

/// Calls `f` on a copy of `argument`, and again each time it fails, up to
/// `retry_number` times more. The first success ends it; so does the
/// failure of the last attempt that is allowed. So a call that is given up
/// has failed `retry_number + 1` times: the failures that were followed by
/// another attempt, numbered from `retry_number` down to 1, and the last.
pub fn retry<T: Clone, U, E, F: Fn(T) -> Result<U, E>>(retry_number: usize, argument: T, f: F) -> (report:
    Retried<U, E>)
    requires
        takes(f, argument),
    ensures
        forall|i: int|
            0 <= i < report.failures@.len() ==> {
                &&& (#[trigger] report.failures@[i]).number == retry_number - i
                &&& gives(f, argument, Err(report.failures@[i].why))
            },
        match report.result {
            Ok(value) => report.failures@.len() <= retry_number && gives(f, argument, Ok(value)),
            Err(reached) => report.failures@.len() == retry_number && gives(
                f,
                argument,
                Err(reached.last),
            ),
        },
{
    let mut remaining: usize = retry_number;
    let mut failures: Vec<Failure<E>> = Vec::new();
    loop
        invariant
            takes(f, argument),
            remaining <= retry_number,
            failures@.len() == retry_number - remaining,
            forall|i: int|
                0 <= i < failures@.len() ==> {
                    &&& (#[trigger] failures@[i]).number == retry_number - i
                    &&& gives(f, argument, Err(failures@[i].why))
                },
        decreases remaining,
    {
        let copy = argument.clone();
        assert(cloned(argument, copy));
        let outcome = f(copy);
        assert(gives(f, argument, outcome));
        match retry_step(remaining, outcome) {
            RetryStep::Done(value) => {
                return Retried { result: Ok(value), failures };
            },
            RetryStep::Again { number, why, remaining: left } => {
                failures.push(Failure { number, why });
                remaining = left;
            },
            RetryStep::Exhausted(last) => {
                return Retried { result: Err(RetryLimitReached { last }), failures };
            },
        }
    }
}

} // verus!

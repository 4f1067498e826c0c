//! Carrying out what the handlers of an event asked for: one action after
//! the other, in the order in which they were asked for; an action that
//! fails again, as often as it may be tried again; and the next one
//! whether or not the one before went through.
//!
//! The outbox decides; whoever owns the connection makes the attempts and
//! reports how each one ended.

use vstd::prelude::*;
use crate::group_system::{Context, DynamicAction, ModerationAction, Run};
use crate::retry::{next_step, retry_step, RetryStep, RETRY_BUDGET};

verus! {

/// How often an action is tried again when it fails: a vote emoji as often
/// as the budget allows, anything else not at all.
pub open spec fn retries_of(action: ModerationAction) -> usize {
    match action {
        ModerationAction::React(_) => RETRY_BUDGET,
        _ => 0,
    }
}

/// How often an action is tried again when it fails.
pub fn retries(action: &ModerationAction) -> (budget: usize)
    ensures
        budget == retries_of(*action),
{
    match action {
        ModerationAction::React(_) => RETRY_BUDGET,
        _ => 0,
    }
}

/// What one handler's run asked for. What a dynamic handler asked for
/// counts as the same wish of a moderation handler.
pub open spec fn actions_of(run: Run) -> Seq<ModerationAction> {
    match run {
        Run::Moderation(verdict) => verdict.actions@,
        Run::Dynamic(actions) => actions@.map_values(|action: DynamicAction| action.spec_widen()),
        Run::Static => Seq::empty(),
    }
}

/// All that the runs asked for, in the order of the runs.
pub open spec fn asked(runs: Seq<Run>) -> Seq<ModerationAction>
    decreases runs.len(),
{
    if runs.len() == 0 {
        Seq::empty()
    } else {
        asked(runs.drop_last()) + actions_of(runs.last())
    }
}

/// How often `actions` are attempted at most, from the one at place `from`
/// on: each of them once, and once more for each time it may be tried
/// again.
pub open spec fn attempts_left(actions: Seq<ModerationAction>, from: int) -> nat
    decreases actions.len() - from,
{
    if 0 <= from < actions.len() {
        1 + retries_of(actions[from]) as nat + attempts_left(actions, from + 1)
    } else {
        0
    }
}

/// All that the handlers of an event asked for, in the order in which they
/// asked.
pub fn collect_actions(ctx: &Context) -> (actions: Vec<ModerationAction>)
    ensures
        actions@ == asked(ctx.runs@),
{
    let mut actions: Vec<ModerationAction> = Vec::new();
    let mut i: usize = 0;
    while i < ctx.runs.len()
        invariant
            i <= ctx.runs@.len(),
            actions@ == asked(ctx.runs@.take(i as int)),
        decreases ctx.runs@.len() - i,
    {
        let ghost before = actions@;
        assert(ctx.runs@.take(i + 1).drop_last() =~= ctx.runs@.take(i as int));
        match &ctx.runs[i] {
            Run::Moderation(verdict) => {
                let mut k: usize = 0;
                while k < verdict.actions.len()
                    invariant
                        k <= verdict.actions@.len(),
                        actions@ == before + verdict.actions@.take(k as int),
                    decreases verdict.actions@.len() - k,
                {
                    actions.push(verdict.actions[k]);
                    assert(verdict.actions@.take(k + 1) =~= verdict.actions@.take(k as int).push(
                        verdict.actions@[k as int],
                    ));
                    k += 1;
                }
                assert(verdict.actions@.take(k as int) =~= verdict.actions@);
            },
            Run::Dynamic(wishes) => {
                let ghost wide = wishes@.map_values(|action: DynamicAction| action.spec_widen());
                let mut k: usize = 0;
                while k < wishes.len()
                    invariant
                        k <= wishes@.len(),
                        wide == wishes@.map_values(|action: DynamicAction| action.spec_widen()),
                        actions@ == before + wide.take(k as int),
                    decreases wishes@.len() - k,
                {
                    actions.push(wishes[k].widen());
                    assert(wide.take(k + 1) =~= wide.take(k as int).push(wide[k as int]));
                    k += 1;
                }
                assert(wide.take(k as int) =~= wide);
            },
            Run::Static => {
                assert(before + Seq::<ModerationAction>::empty() =~= before);
            },
        }
        i += 1;
    }
    assert(ctx.runs@.take(i as int) =~= ctx.runs@);
    actions
}

/// How an attempt ended, as far as the one who made it has to know.
pub enum Report<E> {
    /// The action went through.
    Done,
    /// The action failed and is attempted again. `number` is what the
    /// failure is noted under.
    Retry { number: usize, why: E },
    /// The action failed and is not attempted again.
    GaveUp { why: E },
}

/// What is left to do of the actions that the handlers of one event asked
/// for.
pub struct Outbox {
    actions: Vec<ModerationAction>,
    /// The place of the action that is attempted next.
    next: usize,
    /// How often that action may be tried again after its next attempt.
    remaining: usize,
}

/// An outbox as a sequence and two numbers.
pub struct OutboxView {
    pub actions: Seq<ModerationAction>,
    pub next: nat,
    pub remaining: nat,
}

impl View for Outbox {
    type V = OutboxView;

    closed spec fn view(&self) -> OutboxView {
        OutboxView {
            actions: self.actions@,
            next: self.next as nat,
            remaining: self.remaining as nat,
        }
    }
}

impl OutboxView {
    /// The action that is attempted next, where one is left.
    pub open spec fn current(self) -> Option<ModerationAction> {
        if self.next < self.actions.len() {
            Some(self.actions[self.next as int])
        } else {
            None
        }
    }

    /// The outbox is at one of its actions, with no more attempts left for
    /// it than that action may have, or at the end.
    pub open spec fn well_formed(self) -> bool {
        &&& self.next <= self.actions.len()
        &&& match self.current() {
            Some(action) => self.remaining <= retries_of(action),
            None => self.remaining == 0,
        }
    }

    /// The outbox at the action at place `next`, before its first attempt.
    pub open spec fn at(self, next: nat) -> OutboxView {
        let fresh = OutboxView { actions: self.actions, next, remaining: 0 };
        OutboxView {
            actions: self.actions,
            next,
            remaining: match fresh.current() {
                Some(action) => retries_of(action) as nat,
                None => 0,
            },
        }
    }

    /// The outbox after an attempt at its current action: at the next
    /// action where the attempt went through or was the last one allowed;
    /// else at the same action, with one attempt less left.
    pub open spec fn after(self, went_through: bool) -> OutboxView {
        if went_through || self.remaining == 0 {
            self.at((self.next + 1) as nat)
        } else {
            OutboxView {
                actions: self.actions,
                next: self.next,
                remaining: (self.remaining - 1) as nat,
            }
        }
    }

    /// How many attempts are made at most until nothing is left.
    pub open spec fn attempts_left(self) -> nat {
        match self.current() {
            Some(_) => 1 + self.remaining + attempts_left(self.actions, self.next as int + 1),
            None => 0,
        }
    }
}

/// Each attempt brings the end nearer: the actions are attempted in their
/// order, none of them more often than it may be, and the failure of one
/// does not keep the next from its turn.
pub proof fn lemma_every_attempt_counts(outbox: OutboxView, went_through: bool)
    requires
        outbox.well_formed(),
        outbox.current() is Some,
    ensures
        outbox.after(went_through).well_formed(),
        outbox.after(went_through).actions == outbox.actions,
        outbox.after(went_through).next == outbox.next || outbox.after(went_through).next
            == outbox.next + 1,
        went_through ==> outbox.after(went_through).next == outbox.next + 1,
        outbox.after(went_through).attempts_left() < outbox.attempts_left(),
{
}

impl Outbox {
    /// The outbox of what the handlers of an event asked for, with nothing
    /// attempted yet.
    pub fn new(ctx: &Context) -> (outbox: Outbox)
        ensures
            outbox@.well_formed(),
            outbox@.actions == asked(ctx.runs@),
            outbox@ == outbox@.at(0),
    {
        let actions = collect_actions(ctx);
        let remaining: usize = if actions.len() > 0 {
            retries(&actions[0])
        } else {
            0
        };
        Outbox { actions, next: 0, remaining }
    }

    /// The action that is to be attempted now, or nothing where all is done.
    pub fn current(&self) -> (action: Option<ModerationAction>)
        ensures
            action == self@.current(),
    {
        if self.next < self.actions.len() {
            Some(self.actions[self.next])
        } else {
            None
        }
    }

    /// Takes note of how the attempt at the current action ended.
    pub fn settle<U, E>(&mut self, outcome: Result<U, E>) -> (report: Report<E>)
        requires
            old(self)@.well_formed(),
            old(self)@.current() is Some,
        ensures
            final(self)@ == old(self)@.after(outcome is Ok),
            final(self)@.well_formed(),
            report == match next_step(old(self)@.remaining as usize, outcome) {
                RetryStep::Done(_) => Report::Done,
                RetryStep::Again { number, why, .. } => Report::Retry { number, why },
                RetryStep::Exhausted(why) => Report::GaveUp { why },
            },
    {
        match retry_step(self.remaining, outcome) {
            RetryStep::Done(_) => {
                self.advance();
                Report::Done
            },
            RetryStep::Again { number, why, remaining } => {
                self.remaining = remaining;
                Report::Retry { number, why }
            },
            RetryStep::Exhausted(why) => {
                self.advance();
                Report::GaveUp { why }
            },
        }
    }

    /// Goes on to the next action.
    fn advance(&mut self)
        requires
            old(self)@.next < old(self)@.actions.len(),
        ensures
            final(self)@ == old(self)@.at((old(self)@.next + 1) as nat),
    {
        let len: usize = self.actions.len();
        self.next = self.next + 1;
        self.remaining = if self.next < len {
            retries(&self.actions[self.next])
        } else {
            0
        };
    }
}

} // verus!

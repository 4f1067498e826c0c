//! The staging of an event's handlers: three tiers that run one after the
//! other, the first of which can end the run.
//!
//! A handler decides; it does not act. What it wants done it hands back, and
//! the context of the event keeps it, one entry for each handler that ran, in
//! the order in which they ran. Whoever owns the connection carries the
//! entries out in that order.

use vstd::prelude::*;
use crate::model::Event;
use crate::votes::VoteEmoji;

verus! {

/// Whether the handlers after a moderation handler still run.
#[derive(Clone, Copy, Debug, PartialEq, Eq, Structural)]
pub enum Propagation {
    Propagate,
    Stop,
}

/// What a moderation handler may ask for.
#[derive(Clone, Copy, Debug, PartialEq, Eq)]
pub enum ModerationAction {
    /// Put a vote emoji under the message.
    React(VoteEmoji),
    /// Answer in the channel the event came from.
    Reply(&'static str),
    /// Delete the message.
    DeleteMessage,
    /// Take the reaction off again.
    DeleteReaction,
}

/// What a dynamic handler may ask for: anything but to delete.
#[derive(Clone, Copy, Debug, PartialEq, Eq)]
pub enum DynamicAction {
    /// Put a vote emoji under the message.
    React(VoteEmoji),
    /// Answer in the channel the event came from.
    Reply(&'static str),
}

impl DynamicAction {
    /// The same wish among those that a moderation handler may have.
    pub open spec fn spec_widen(self) -> ModerationAction {
        match self {
            DynamicAction::React(emoji) => ModerationAction::React(emoji),
            DynamicAction::Reply(text) => ModerationAction::Reply(text),
        }
    }

    /// The same wish among those that a moderation handler may have. It is
    /// never one to delete.
    #[verifier::when_used_as_spec(spec_widen)]
    pub fn widen(self) -> (action: ModerationAction)
        ensures
            action == self.spec_widen(),
            !(action is DeleteMessage),
            !(action is DeleteReaction),
    {
        match self {
            DynamicAction::React(emoji) => ModerationAction::React(emoji),
            DynamicAction::Reply(text) => ModerationAction::Reply(text),
        }
    }
}

/// What a moderation handler hands back.
#[derive(Clone, Debug, PartialEq, Eq)]
pub struct Verdict {
    pub actions: Vec<ModerationAction>,
    pub propagation: Propagation,
}

/// The three tiers, in the order in which they run.
#[derive(Clone, Copy, Debug, PartialEq, Eq, Structural)]
pub enum Tier {
    Moderation,
    Dynamic,
    Static,
}

impl Tier {
    /// The place of a tier in the order of the run.
    pub open spec fn rank(self) -> int {
        match self {
            Tier::Moderation => 0,
            Tier::Dynamic => 1,
            Tier::Static => 2,
        }
    }
}

/// The record of one handler's run.
#[derive(Clone, Debug, PartialEq, Eq)]
pub enum Run {
    /// A moderation handler ran and handed this back.
    Moderation(Verdict),
    /// A dynamic handler ran and asked for these.
    Dynamic(Vec<DynamicAction>),
    /// A static handler ran; it can ask for nothing.
    Static,
}

impl Run {
    /// The tier of the handler that ran.
    pub open spec fn tier(self) -> Tier {
        match self {
            Run::Moderation(_) => Tier::Moderation,
            Run::Dynamic(_) => Tier::Dynamic,
            Run::Static => Tier::Static,
        }
    }

    /// The run of a moderation handler that ended the event's handling.
    pub open spec fn stops(self) -> bool {
        match self {
            Run::Moderation(verdict) => verdict.propagation == Propagation::Stop,
            _ => false,
        }
    }
}

/// What the handlers of one event have asked for so far.
#[derive(Clone, Debug, PartialEq, Eq)]
pub struct Context {
    /// One entry for each handler that ran, the first to run first.
    pub runs: Vec<Run>,
}

impl Context {
    /// The context of an event that no handler has seen yet.
    pub fn new() -> (ctx: Context)
        ensures
            ctx.runs@.len() == 0,
    {
        Context { runs: Vec::new() }
    }
}

/// The signal that a chain of moderation handlers gives after `runs`: to
/// stop, where the last of them stopped.
pub open spec fn signal_of(runs: Seq<Run>) -> Propagation {
    if runs.len() > 0 && runs.last().stops() {
        Propagation::Stop
    } else {
        Propagation::Propagate
    }
}

/// A handler can be called on every event.
pub open spec fn takes_every_event<Out, F: Fn(&Event) -> Out>(handler: F) -> bool {
    forall|event: &Event| call_requires(handler, (event,))
}

/// A chain of read-only handlers. They run last, each of them, in the order
/// of the chain, and can ask for nothing.
pub trait StaticMessageProcessor {
    /// How many handlers the chain holds.
    spec fn observers(&self) -> nat;

    /// Each handler of the chain can be called on every event.
    spec fn observes_all(&self) -> bool;

    /// `runs` is what the chain can leave behind when it handles `event`.
    spec fn observed(&self, event: &Event, runs: Seq<Run>) -> bool;

    /// Lets each handler of the chain see the event, and notes in `ctx`
    /// that it ran.
    fn process(&self, ctx: &mut Context, event: &Event)
        requires
            self.observes_all(),
        ensures
            old(ctx).runs@.is_prefix_of(final(ctx).runs@),
            self.observed(event, final(ctx).runs@.skip(old(ctx).runs@.len() as int)),
    ;

    /// Every handler of the chain leaves one entry, and each is of this tier.
    proof fn lemma_observed(&self, event: &Event, runs: Seq<Run>)
        requires
            self.observed(event, runs),
        ensures
            runs.len() == self.observers(),
            forall|i: int| 0 <= i < runs.len() ==> (#[trigger] runs[i]).tier() == Tier::Static,
    ;
}

/// A chain of handlers that may answer and react, but not delete. Each of
/// them runs, in the order of the chain, whatever the others did.
pub trait DynamicMessageProcessor {
    /// How many handlers the chain holds.
    spec fn responders(&self) -> nat;

    /// Each handler of the chain can be called on every event.
    spec fn responds_to_all(&self) -> bool;

    /// `runs` is what the chain can leave behind when it handles `event`.
    spec fn responded(&self, event: &Event, runs: Seq<Run>) -> bool;

    /// Lets each handler of the chain see the event, and notes in `ctx`
    /// what it asked for.
    fn process(&self, ctx: &mut Context, event: &Event)
        requires
            self.responds_to_all(),
        ensures
            old(ctx).runs@.is_prefix_of(final(ctx).runs@),
            self.responded(event, final(ctx).runs@.skip(old(ctx).runs@.len() as int)),
    ;

    /// Every handler of the chain leaves one entry, and each is of this tier.
    proof fn lemma_responded(&self, event: &Event, runs: Seq<Run>)
        requires
            self.responded(event, runs),
        ensures
            runs.len() == self.responders(),
            forall|i: int| 0 <= i < runs.len() ==> (#[trigger] runs[i]).tier() == Tier::Dynamic,
    ;
}

/// A chain of handlers that may answer, react and delete. They run in the
/// order of the chain, up to and including the first that says to stop.
pub trait ModerationMessageProcessor {
    /// How many handlers the chain holds.
    spec fn moderators(&self) -> nat;

    /// Each handler of the chain can be called on every event.
    spec fn moderates_all(&self) -> bool;

    /// `runs` is what the chain can leave behind when it handles `event`.
    spec fn moderated(&self, event: &Event, runs: Seq<Run>) -> bool;

    /// Lets the handlers of the chain see the event, one after the other
    /// until one says to stop, and notes in `ctx` what each handed back.
    /// The signal is that of the last handler that ran.
    fn process(&self, ctx: &mut Context, event: &Event) -> (signal: Propagation)
        requires
            self.moderates_all(),
        ensures
            old(ctx).runs@.is_prefix_of(final(ctx).runs@),
            self.moderated(event, final(ctx).runs@.skip(old(ctx).runs@.len() as int)),
            signal == signal_of(final(ctx).runs@.skip(old(ctx).runs@.len() as int)),
    ;

    /// The entries are of this tier; none but the last can have stopped; and
    /// where none stopped, every handler of the chain has left one.
    proof fn lemma_moderated(&self, event: &Event, runs: Seq<Run>)
        requires
            self.moderated(event, runs),
        ensures
            runs.len() <= self.moderators(),
            forall|i: int|
                0 <= i < runs.len() ==> (#[trigger] runs[i]).tier() == Tier::Moderation,
            forall|i: int| 0 <= i < runs.len() - 1 ==> !(#[trigger] runs[i]).stops(),
            signal_of(runs) == Propagation::Propagate ==> runs.len() == self.moderators(),
    ;
}

/// A handler at the head of a chain of read-only handlers.
pub struct StaticMessageProcessorList<F, Ps: StaticMessageProcessor>(pub F, pub Ps);

impl<F, Ps> StaticMessageProcessor for StaticMessageProcessorList<F, Ps> where
    F: Fn(&Event),
    Ps: StaticMessageProcessor,
{
    open spec fn observers(&self) -> nat {
        1 + self.1.observers()
    }

    open spec fn observes_all(&self) -> bool {
        takes_every_event(self.0) && self.1.observes_all()
    }

    open spec fn observed(&self, event: &Event, runs: Seq<Run>) -> bool {
        &&& runs.len() > 0
        &&& runs[0] == Run::Static
        &&& call_ensures(self.0, (event,), ())
        &&& self.1.observed(event, runs.drop_first())
    }

    fn process(&self, ctx: &mut Context, event: &Event) {
        (self.0)(event);
        ctx.runs.push(Run::Static);
        let ghost mid = ctx.runs@;
        self.1.process(ctx, event);
        proof {
            let before = old(ctx).runs@;
            let after = ctx.runs@;
            assert(after[before.len() as int] == mid[before.len() as int]);
            assert(after.skip(before.len() as int).drop_first() =~= after.skip(mid.len() as int));
        }
    }

    proof fn lemma_observed(&self, event: &Event, runs: Seq<Run>) {
        self.1.lemma_observed(event, runs.drop_first());
        assert forall|i: int| 0 <= i < runs.len() implies (#[trigger] runs[i]).tier()
            == Tier::Static by {
            if i > 0 {
                assert(runs[i] == runs.drop_first()[i - 1]);
            }
        }
    }
}

/// A handler at the head of a chain of handlers that may not delete.
pub struct DynamicMessageProcessorList<F, Ps: DynamicMessageProcessor>(pub F, pub Ps);

impl<F, Ps> DynamicMessageProcessor for DynamicMessageProcessorList<F, Ps> where
    F: Fn(&Event) -> Vec<DynamicAction>,
    Ps: DynamicMessageProcessor,
{
    open spec fn responders(&self) -> nat {
        1 + self.1.responders()
    }

    open spec fn responds_to_all(&self) -> bool {
        takes_every_event(self.0) && self.1.responds_to_all()
    }

    open spec fn responded(&self, event: &Event, runs: Seq<Run>) -> bool {
        &&& runs.len() > 0
        &&& match runs[0] {
            Run::Dynamic(actions) => call_ensures(self.0, (event,), actions),
            _ => false,
        }
        &&& self.1.responded(event, runs.drop_first())
    }

    fn process(&self, ctx: &mut Context, event: &Event) {
        let actions = (self.0)(event);
        ctx.runs.push(Run::Dynamic(actions));
        let ghost mid = ctx.runs@;
        self.1.process(ctx, event);
        proof {
            let before = old(ctx).runs@;
            let after = ctx.runs@;
            assert(after[before.len() as int] == mid[before.len() as int]);
            assert(after.skip(before.len() as int).drop_first() =~= after.skip(mid.len() as int));
        }
    }

    proof fn lemma_responded(&self, event: &Event, runs: Seq<Run>) {
        self.1.lemma_responded(event, runs.drop_first());
        assert forall|i: int| 0 <= i < runs.len() implies (#[trigger] runs[i]).tier()
            == Tier::Dynamic by {
            if i > 0 {
                assert(runs[i] == runs.drop_first()[i - 1]);
            }
        }
    }
}

/// A handler at the head of a chain of moderation handlers.
pub struct ModerationMessageProcessorList<F, Ps: ModerationMessageProcessor>(pub F, pub Ps);

impl<F, Ps> ModerationMessageProcessor for ModerationMessageProcessorList<F, Ps> where
    F: Fn(&Event) -> Verdict,
    Ps: ModerationMessageProcessor,
{
    open spec fn moderators(&self) -> nat {
        1 + self.1.moderators()
    }

    open spec fn moderates_all(&self) -> bool {
        takes_every_event(self.0) && self.1.moderates_all()
    }

    open spec fn moderated(&self, event: &Event, runs: Seq<Run>) -> bool {
        &&& runs.len() > 0
        &&& match runs[0] {
            Run::Moderation(verdict) => {
                &&& call_ensures(self.0, (event,), verdict)
                &&& if verdict.propagation == Propagation::Stop {
                    runs.len() == 1
                } else {
                    self.1.moderated(event, runs.drop_first())
                }
            },
            _ => false,
        }
    }

    fn process(&self, ctx: &mut Context, event: &Event) -> (signal: Propagation) {
        let verdict = (self.0)(event);
        let propagation = verdict.propagation;
        ctx.runs.push(Run::Moderation(verdict));
        let ghost mid = ctx.runs@;
        if propagation == Propagation::Propagate {
            let signal = self.1.process(ctx, event);
            proof {
                let before = old(ctx).runs@;
                let after = ctx.runs@;
                assert(after[before.len() as int] == mid[before.len() as int]);
                assert(after.skip(before.len() as int).drop_first() =~= after.skip(
                    mid.len() as int,
                ));
            }
            return signal;
        }
        assert(mid.skip(old(ctx).runs@.len() as int) =~= seq![mid.last()]);
        Propagation::Stop
    }

    proof fn lemma_moderated(&self, event: &Event, runs: Seq<Run>) {
        if !runs[0].stops() {
            let rest = runs.drop_first();
            self.1.lemma_moderated(event, rest);
            assert forall|i: int| 0 <= i < runs.len() implies (#[trigger] runs[i]).tier()
                == Tier::Moderation by {
                if i > 0 {
                    assert(runs[i] == rest[i - 1]);
                }
            }
            assert forall|i: int| 0 <= i < runs.len() - 1 implies !(#[trigger] runs[i]).stops() by {
                if i > 0 {
                    assert(runs[i] == rest[i - 1]);
                }
            }
            if rest.len() > 0 {
                assert(rest.last() == runs.last());
            }
        }
    }
}

/// The end of every chain: no handler.
pub struct SentinelMessageProcessor;

impl StaticMessageProcessor for SentinelMessageProcessor {
    open spec fn observers(&self) -> nat {
        0
    }

    open spec fn observes_all(&self) -> bool {
        true
    }

    open spec fn observed(&self, event: &Event, runs: Seq<Run>) -> bool {
        runs.len() == 0
    }

    fn process(&self, ctx: &mut Context, event: &Event) {
    }

    proof fn lemma_observed(&self, event: &Event, runs: Seq<Run>) {
    }
}

impl DynamicMessageProcessor for SentinelMessageProcessor {
    open spec fn responders(&self) -> nat {
        0
    }

    open spec fn responds_to_all(&self) -> bool {
        true
    }

    open spec fn responded(&self, event: &Event, runs: Seq<Run>) -> bool {
        runs.len() == 0
    }

    fn process(&self, ctx: &mut Context, event: &Event) {
    }

    proof fn lemma_responded(&self, event: &Event, runs: Seq<Run>) {
    }
}

impl ModerationMessageProcessor for SentinelMessageProcessor {
    open spec fn moderators(&self) -> nat {
        0
    }

    open spec fn moderates_all(&self) -> bool {
        true
    }

    open spec fn moderated(&self, event: &Event, runs: Seq<Run>) -> bool {
        runs.len() == 0
    }

    fn process(&self, ctx: &mut Context, event: &Event) -> (signal: Propagation) {
        Propagation::Propagate
    }

    proof fn lemma_moderated(&self, event: &Event, runs: Seq<Run>) {
    }
}

/// The handlers of one kind of event, by tier. They run in the order
/// moderation, dynamic, static.
pub struct PriorityGroup<
    ModerationMessageProcessors: ModerationMessageProcessor,
    DynamicMessageProcessors: DynamicMessageProcessor,
    StaticMessageProcessors: StaticMessageProcessor,
> {
    /// May read, answer, react and delete.
    pub moderation: ModerationMessageProcessors,
    /// May read, answer and react.
    pub dynamic: DynamicMessageProcessors,
    /// May read only.
    pub fixed: StaticMessageProcessors,
}

impl PriorityGroup<SentinelMessageProcessor, SentinelMessageProcessor, SentinelMessageProcessor> {
    /// A group without handlers.
    pub fn new() -> (group: Self)
        ensures
            group.well_formed(),
            group.moderation.moderators() == 0,
            group.dynamic.responders() == 0,
            group.fixed.observers() == 0,
    {
        PriorityGroup {
            moderation: SentinelMessageProcessor,
            dynamic: SentinelMessageProcessor,
            fixed: SentinelMessageProcessor,
        }
    }
}

impl<
    ModerationMessageProcessors: ModerationMessageProcessor,
    DynamicMessageProcessors: DynamicMessageProcessor,
    StaticMessageProcessors: StaticMessageProcessor,
> PriorityGroup<ModerationMessageProcessors, DynamicMessageProcessors, StaticMessageProcessors> {
    /// Every handler of the group can be called on every event.
    pub open spec fn well_formed(&self) -> bool {
        &&& self.moderation.moderates_all()
        &&& self.dynamic.responds_to_all()
        &&& self.fixed.observes_all()
    }

    /// `runs` is what the group can leave behind when it handles `event`,
    /// with the moderation handlers' entries before place `m` and the static
    /// handlers' from place `d` on: the moderation chain runs first; where
    /// it says to stop nothing else runs; else the dynamic chain runs, and
    /// the static chain after it.
    pub open spec fn staged_at(&self, event: &Event, runs: Seq<Run>, m: int, d: int) -> bool {
        &&& 0 <= m <= d <= runs.len()
        &&& self.moderation.moderated(event, runs.take(m))
        &&& if signal_of(runs.take(m)) == Propagation::Stop {
            m == runs.len()
        } else {
            &&& self.dynamic.responded(event, runs.subrange(m, d))
            &&& self.fixed.observed(event, runs.skip(d))
        }
    }

    /// `runs` is what the group can leave behind when it handles `event`.
    pub open spec fn staged(&self, event: &Event, runs: Seq<Run>) -> bool {
        exists|m: int, d: int| self.staged_at(event, runs, m, d)
    }

    /// Puts a moderation handler before those that the group has.
    pub fn with_moderation_system<F: Fn(&Event) -> Verdict>(self, system: F) -> (group:
        PriorityGroup<
        ModerationMessageProcessorList<F, ModerationMessageProcessors>,
        DynamicMessageProcessors,
        StaticMessageProcessors,
    >)
        ensures
            group.moderation == ModerationMessageProcessorList(system, self.moderation),
            group.dynamic == self.dynamic,
            group.fixed == self.fixed,
            group.well_formed() == (self.well_formed() && takes_every_event(system)),
    {
        PriorityGroup {
            moderation: ModerationMessageProcessorList(system, self.moderation),
            dynamic: self.dynamic,
            fixed: self.fixed,
        }
    }

    /// Puts a dynamic handler before those that the group has.
    pub fn with_dynamic_system<F: Fn(&Event) -> Vec<DynamicAction>>(self, system: F) -> (group:
        PriorityGroup<
        ModerationMessageProcessors,
        DynamicMessageProcessorList<F, DynamicMessageProcessors>,
        StaticMessageProcessors,
    >)
        ensures
            group.moderation == self.moderation,
            group.dynamic == DynamicMessageProcessorList(system, self.dynamic),
            group.fixed == self.fixed,
            group.well_formed() == (self.well_formed() && takes_every_event(system)),
    {
        PriorityGroup {
            moderation: self.moderation,
            dynamic: DynamicMessageProcessorList(system, self.dynamic),
            fixed: self.fixed,
        }
    }

    /// Puts a static handler before those that the group has.
    pub fn with_static_system<F: Fn(&Event)>(self, system: F) -> (group: PriorityGroup<
        ModerationMessageProcessors,
        DynamicMessageProcessors,
        StaticMessageProcessorList<F, StaticMessageProcessors>,
    >)
        ensures
            group.moderation == self.moderation,
            group.dynamic == self.dynamic,
            group.fixed == StaticMessageProcessorList(system, self.fixed),
            group.well_formed() == (self.well_formed() && takes_every_event(system)),
    {
        PriorityGroup {
            moderation: self.moderation,
            dynamic: self.dynamic,
            fixed: StaticMessageProcessorList(system, self.fixed),
        }
    }

    /// Lets the handlers see the event, tier by tier, and hands back what
    /// they asked for.
    pub fn start(&self, event: &Event) -> (ctx: Context)
        requires
            self.well_formed(),
        ensures
            self.staged(event, ctx.runs@),
    {
        let mut ctx = Context::new();
        let signal = self.moderation.process(&mut ctx, event);
        let ghost m = ctx.runs@.len() as int;
        if signal == Propagation::Stop {
            assert(ctx.runs@.take(m) =~= ctx.runs@.skip(0));
            assert(self.staged_at(event, ctx.runs@, m, m));
            return ctx;
        }
        let ghost after_moderation = ctx.runs@;
        self.dynamic.process(&mut ctx, event);
        let ghost d = ctx.runs@.len() as int;
        let ghost after_dynamic = ctx.runs@;
        self.fixed.process(&mut ctx, event);
        proof {
            let runs = ctx.runs@;
            assert(after_moderation.skip(0) =~= after_moderation);
            assert(runs.take(m) =~= after_moderation);
            assert(runs.subrange(m, d) =~= after_dynamic.skip(m));
            assert(self.staged_at(event, runs, m, d));
        }
        ctx
    }
}

/// The tiers run in their order, and a stop ends the run: in what a group
/// leaves behind, no entry of a later tier stands before one of an earlier
/// tier; and where a moderation handler said to stop, its entry is the last,
/// so that no dynamic and no static handler has run.
pub proof fn lemma_tiers_run_in_order<
    M: ModerationMessageProcessor,
    D: DynamicMessageProcessor,
    S: StaticMessageProcessor,
>(group: PriorityGroup<M, D, S>, event: &Event, runs: Seq<Run>)
    requires
        group.staged(event, runs),
    ensures
        forall|i: int, j: int|
            0 <= i <= j < runs.len() ==> (#[trigger] runs[i]).tier().rank() <= (
            #[trigger] runs[j]).tier().rank(),
        forall|i: int|
            0 <= i < runs.len() && (#[trigger] runs[i]).stops() ==> {
                &&& i == runs.len() - 1
                &&& forall|j: int|
                    0 <= j < runs.len() ==> (#[trigger] runs[j]).tier() == Tier::Moderation
            },
{
    let (m, d) = choose|m: int, d: int| group.staged_at(event, runs, m, d);
    let first = runs.take(m);
    group.moderation.lemma_moderated(event, first);
    assert forall|i: int| 0 <= i < m implies (#[trigger] runs[i]).tier() == Tier::Moderation && (i
        < m - 1 ==> !runs[i].stops()) by {
        assert(runs[i] == first[i]);
    }
    if signal_of(first) != Propagation::Stop {
        let second = runs.subrange(m, d);
        let third = runs.skip(d);
        group.dynamic.lemma_responded(event, second);
        group.fixed.lemma_observed(event, third);
        assert forall|i: int| m <= i < d implies (#[trigger] runs[i]).tier() == Tier::Dynamic by {
            assert(runs[i] == second[i - m]);
        }
        assert forall|i: int| d <= i < runs.len() implies (#[trigger] runs[i]).tier()
            == Tier::Static by {
            assert(runs[i] == third[i - d]);
        }
        if m > 0 {
            assert(first.last() == runs[m - 1]);
        }
    }
}

/// Where no moderation handler says to stop, every handler of the group
/// runs, once.
pub proof fn lemma_every_handler_runs<
    M: ModerationMessageProcessor,
    D: DynamicMessageProcessor,
    S: StaticMessageProcessor,
>(group: PriorityGroup<M, D, S>, event: &Event, runs: Seq<Run>)
    requires
        group.staged(event, runs),
        forall|i: int| 0 <= i < runs.len() ==> !(#[trigger] runs[i]).stops(),
    ensures
        runs.len() == group.moderation.moderators() + group.dynamic.responders()
            + group.fixed.observers(),
{
    let (m, d) = choose|m: int, d: int| group.staged_at(event, runs, m, d);
    let first = runs.take(m);
    if m > 0 {
        assert(first.last() == runs[m - 1]);
    }
    group.moderation.lemma_moderated(event, first);
    group.dynamic.lemma_responded(event, runs.subrange(m, d));
    group.fixed.lemma_observed(event, runs.skip(d));
}

} // verus!

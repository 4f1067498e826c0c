use showcase_curator::delivery::{collect_actions, retries, Outbox, Report};
use showcase_curator::retry::RETRY_BUDGET;
use showcase_curator::group_system::{Context, DynamicAction, ModerationAction, Propagation, Run, Verdict};
use showcase_curator::votes::VoteEmoji;

fn context(runs: Vec<Run>) -> Context {
    Context { runs }
}

fn moderation(actions: Vec<ModerationAction>) -> Run {
    Run::Moderation(Verdict { actions, propagation: Propagation::Propagate })
}

fn upvote() -> ModerationAction {
    ModerationAction::React(VoteEmoji::Upvote)
}

fn downvote() -> ModerationAction {
    ModerationAction::React(VoteEmoji::Downvote)
}

/// Makes the attempts that the outbox asks for; `outcome` says how each one ends.
fn deliver(ctx: &Context, outcome: impl Fn(usize, ModerationAction) -> Result<(), String>) -> Vec<String> {
    let mut log = vec![];
    let mut outbox = Outbox::new(ctx);
    let mut attempt = 0;
    while let Some(action) = outbox.current() {
        attempt += 1;
        assert!(attempt < 1000);
        log.push(match outbox.settle(outcome(attempt, action)) {
            Report::Done => format!("{:?} done", action),
            Report::Retry { number, why } => format!("{:?} retry #{} {}", action, number, why),
            Report::GaveUp { why } => format!("{:?} gave up {}", action, why),
        });
    }
    log
}

#[test]
fn actions_are_collected_in_the_order_of_the_runs() {
    let ctx = context(vec![
        moderation(vec![upvote(), downvote()]),
        moderation(vec![]),
        moderation(vec![ModerationAction::DeleteMessage]),
        Run::Dynamic(vec![DynamicAction::Reply("a"), DynamicAction::React(VoteEmoji::Upvote)]),
        Run::Static,
        Run::Dynamic(vec![DynamicAction::Reply("b")]),
    ]);
    assert_eq!(
        collect_actions(&ctx),
        vec![
            upvote(),
            downvote(),
            ModerationAction::DeleteMessage,
            ModerationAction::Reply("a"),
            upvote(),
            ModerationAction::Reply("b"),
        ]
    );
    assert_eq!(collect_actions(&context(vec![])), vec![]);
    assert_eq!(collect_actions(&context(vec![Run::Static, Run::Static])), vec![]);
}

#[test]
fn an_empty_outbox_has_nothing_to_attempt() {
    assert_eq!(Outbox::new(&context(vec![])).current(), None);
    assert_eq!(Outbox::new(&context(vec![Run::Static, moderation(vec![])])).current(), None);
}

#[test]
fn what_goes_through_is_attempted_once() {
    let ctx = context(vec![moderation(vec![upvote(), downvote()]), Run::Dynamic(vec![DynamicAction::Reply("hi")])]);
    assert_eq!(
        deliver(&ctx, |_, _| Ok(())),
        vec!["React(Upvote) done", "React(Downvote) done", "Reply(\"hi\") done"]
    );
}

#[test]
fn a_vote_emoji_that_fails_twice_is_noted_twice() {
    let ctx = context(vec![moderation(vec![upvote()])]);
    let log = deliver(&ctx, |attempt, _| if attempt <= 2 { Err(format!("e{}", attempt)) } else { Ok(()) });
    assert_eq!(
        log,
        vec!["React(Upvote) retry #3 e1", "React(Upvote) retry #2 e2", "React(Upvote) done"]
    );
}

#[test]
fn a_vote_emoji_is_given_up_after_four_attempts_and_the_next_has_its_turn() {
    let ctx = context(vec![moderation(vec![upvote(), downvote()])]);
    let log = deliver(&ctx, |attempt, action| {
        if action == upvote() {
            Err(format!("e{}", attempt))
        } else {
            Ok(())
        }
    });
    assert_eq!(
        log,
        vec![
            "React(Upvote) retry #3 e1",
            "React(Upvote) retry #2 e2",
            "React(Upvote) retry #1 e3",
            "React(Upvote) gave up e4",
            "React(Downvote) done",
        ]
    );
}

#[test]
fn each_vote_emoji_has_its_own_budget() {
    let ctx = context(vec![moderation(vec![upvote(), downvote()])]);
    let log = deliver(&ctx, |attempt, _| if attempt == 4 || attempt == 8 { Ok(()) } else { Err(String::from("x")) });
    assert_eq!(
        log,
        vec![
            "React(Upvote) retry #3 x",
            "React(Upvote) retry #2 x",
            "React(Upvote) retry #1 x",
            "React(Upvote) done",
            "React(Downvote) retry #3 x",
            "React(Downvote) retry #2 x",
            "React(Downvote) retry #1 x",
            "React(Downvote) done",
        ]
    );
}

#[test]
fn what_is_no_vote_emoji_is_not_tried_again() {
    let ctx = context(vec![
        moderation(vec![ModerationAction::DeleteMessage, ModerationAction::DeleteReaction]),
        Run::Dynamic(vec![DynamicAction::Reply("hi")]),
    ]);
    assert_eq!(
        deliver(&ctx, |_, _| Err(String::from("no"))),
        vec!["DeleteMessage gave up no", "DeleteReaction gave up no", "Reply(\"hi\") gave up no"]
    );
}

#[test]
fn when_everything_fails_every_action_still_has_its_attempts() {
    let ctx = context(vec![
        moderation(vec![upvote(), ModerationAction::DeleteMessage, downvote()]),
        Run::Dynamic(vec![DynamicAction::React(VoteEmoji::Upvote)]),
    ]);
    let log = deliver(&ctx, |_, _| Err(String::from("no")));
    assert_eq!(log.len(), 4 + 1 + 4 + 4);
    assert_eq!(log[3], "React(Upvote) gave up no");
    assert_eq!(log[4], "DeleteMessage gave up no");
    assert_eq!(log[8], "React(Downvote) gave up no");
    assert_eq!(log[12], "React(Upvote) gave up no");
}

#[test]
fn only_vote_emoji_are_tried_again() {
    assert_eq!(RETRY_BUDGET, 3);
    assert_eq!(retries(&ModerationAction::React(VoteEmoji::Upvote)), 3);
    assert_eq!(retries(&ModerationAction::React(VoteEmoji::Downvote)), 3);
    assert_eq!(retries(&ModerationAction::DeleteMessage), 0);
    assert_eq!(retries(&ModerationAction::DeleteReaction), 0);
    assert_eq!(retries(&ModerationAction::Reply("hi")), 0);
}

//! The score of a message: what its reactions say for it less what they say
//! against it.

use vstd::prelude::*;
use crate::model::{Emoji, EmojiView, Message, MessageReaction, MessageReactionView, MessageView};
use crate::text::str_eq;

verus! {

/// The id of the community's emoji for a vote in favour.
pub const UPVOTE_ID: u64 = 1343553189508681728;

/// The id of the community's emoji for a vote against.
pub const DOWNVOTE_ID: u64 = 1343558658872709141;

/// The name of the emoji for a vote in favour.
pub const UPVOTE_NAME: &'static str = "upvote";

/// The name of the emoji for a vote against.
pub const DOWNVOTE_NAME: &'static str = "downvote";

/// A glyph that counts as a vote in favour where the community's own emoji
/// are not at hand.
pub const HEART: &'static str = "💙";

/// The second such glyph.
pub const LAUGH: &'static str = "😂";

/// The two emoji that a post is given for the community to vote with.
#[derive(Clone, Copy, Debug, PartialEq, Eq, Structural)]
pub enum VoteEmoji {
    Upvote,
    Downvote,
}

impl VoteEmoji {
    /// The id under which the platform knows the emoji.
    pub open spec fn spec_id(self) -> u64 {
        match self {
            VoteEmoji::Upvote => UPVOTE_ID,
            VoteEmoji::Downvote => DOWNVOTE_ID,
        }
    }

    /// The name that goes with the id.
    pub open spec fn spec_name(self) -> Seq<char> {
        match self {
            VoteEmoji::Upvote => UPVOTE_NAME@,
            VoteEmoji::Downvote => DOWNVOTE_NAME@,
        }
    }

    /// The id under which the platform knows the emoji.
    #[verifier::when_used_as_spec(spec_id)]
    pub fn id(self) -> (id: u64)
        ensures
            id == self.spec_id(),
    {
        match self {
            VoteEmoji::Upvote => UPVOTE_ID,
            VoteEmoji::Downvote => DOWNVOTE_ID,
        }
    }

    /// The name that goes with the id.
    pub fn name(self) -> (name: &'static str)
        ensures
            name@ == self.spec_name(),
    {
        match self {
            VoteEmoji::Upvote => UPVOTE_NAME,
            VoteEmoji::Downvote => DOWNVOTE_NAME,
        }
    }
}

/// Whether a glyph is one of the two that stand in for a vote in favour.
pub open spec fn is_fallback_glyph(glyph: Seq<char>) -> bool {
    glyph == HEART@ || glyph == LAUGH@
}

/// The votes in favour that one reaction brings: its count, where it shows a
/// custom emoji named as the upvote is, or one of the fallback glyphs.
pub open spec fn gain(r: MessageReactionView) -> nat {
    match r.emoji {
        EmojiView::Custom { name: Some(name), .. } => if name == UPVOTE_NAME@ {
            r.count
        } else {
            0
        },
        EmojiView::Custom { name: None, .. } => 0,
        EmojiView::Unicode(glyph) => if is_fallback_glyph(glyph) {
            r.count
        } else {
            0
        },
    }
}

/// The votes against that one reaction brings: its count, where it shows a
/// custom emoji named as the downvote is.
pub open spec fn loss(r: MessageReactionView) -> nat {
    match r.emoji {
        EmojiView::Custom { name: Some(name), .. } => if name == DOWNVOTE_NAME@ {
            r.count
        } else {
            0
        },
        _ => 0,
    }
}

/// All votes in favour among `reactions`.
pub open spec fn upvotes(reactions: Seq<MessageReactionView>) -> nat
    decreases reactions.len(),
{
    if reactions.len() == 0 {
        0
    } else {
        upvotes(reactions.drop_last()) + gain(reactions.last())
    }
}

/// All votes against among `reactions`.
pub open spec fn downvotes(reactions: Seq<MessageReactionView>) -> nat
    decreases reactions.len(),
{
    if reactions.len() == 0 {
        0
    } else {
        downvotes(reactions.drop_last()) + loss(reactions.last())
    }
}

/// The score that a set of reactions gives: the votes in favour less the
/// votes against. Reactions of any other kind count for nothing.
pub open spec fn vote_score(reactions: Seq<MessageReactionView>) -> int {
    upvotes(reactions) - downvotes(reactions)
}

/// The score of a message can be held in an `isize`.
pub open spec fn score_fits(m: MessageView) -> bool {
    isize::MIN <= vote_score(m.reactions) <= isize::MAX
}

/// The score is the sum of what each reaction brings, whatever the order in
/// which the two conventions of voting occur among them.
pub proof fn lemma_score_of_push(reactions: Seq<MessageReactionView>, r: MessageReactionView)
    ensures
        vote_score(reactions.push(r)) == vote_score(reactions) + gain(r) - loss(r),
{
    assert(reactions.push(r).drop_last() =~= reactions);
}

/// The score rests on the reactions alone: two messages with the same
/// reactions have the same score, wherever it is asked for.
pub proof fn lemma_score_rests_on_reactions(a: MessageView, b: MessageView)
    requires
        a.reactions == b.reactions,
    ensures
        vote_score(a.reactions) == vote_score(b.reactions),
        score_fits(a) == score_fits(b),
{
}

/// No tally is larger than what as many reactions as there are could bring.
proof fn lemma_tally_bounds(reactions: Seq<MessageReactionView>)
    requires
        forall|i: int| 0 <= i < reactions.len() ==> (#[trigger] reactions[i]).count <= u64::MAX,
    ensures
        upvotes(reactions) <= reactions.len() * u64::MAX,
        downvotes(reactions) <= reactions.len() * u64::MAX,
    decreases reactions.len(),
{
    if reactions.len() > 0 {
        let front = reactions.drop_last();
        assert forall|i: int| 0 <= i < front.len() implies (#[trigger] front[i]).count
            <= u64::MAX by {
            assert(front[i] == reactions[i]);
        }
        lemma_tally_bounds(front);
        assert(reactions.last() == reactions[reactions.len() - 1]);
    }
}

/// The votes in favour that one reaction brings.
fn gain_of(r: &MessageReaction) -> (votes: u64)
    ensures
        votes == gain(r@),
{
    match &r.emoji {
        Emoji::Custom { name: Some(name), .. } => {
            if str_eq(name.as_str(), UPVOTE_NAME) {
                r.count
            } else {
                0
            }
        },
        Emoji::Custom { name: None, .. } => 0,
        Emoji::Unicode(glyph) => {
            if str_eq(glyph.as_str(), HEART) || str_eq(glyph.as_str(), LAUGH) {
                r.count
            } else {
                0
            }
        },
    }
}

/// The votes against that one reaction brings.
fn loss_of(r: &MessageReaction) -> (votes: u64)
    ensures
        votes == loss(r@),
{
    match &r.emoji {
        Emoji::Custom { name: Some(name), .. } => {
            if str_eq(name.as_str(), DOWNVOTE_NAME) {
                r.count
            } else {
                0
            }
        },
        _ => 0,
    }
}

/// The votes in favour and the votes against, each counted in full.
fn tally(m: &Message) -> (t: (u128, u128))
    ensures
        t.0 == upvotes(m@.reactions),
        t.1 == downvotes(m@.reactions),
{
    let ghost all = m@.reactions;
    let mut up: u128 = 0;
    let mut down: u128 = 0;
    let mut i: usize = 0;
    while i < m.reactions.len()
        invariant
            all == m@.reactions,
            i <= m.reactions@.len(),
            up == upvotes(all.take(i as int)),
            down == downvotes(all.take(i as int)),
        decreases m.reactions@.len() - i,
    {
        let r = &m.reactions[i];
        proof {
            let seen = all.take(i as int);
            assert(all.take(i + 1).drop_last() =~= seen);
            assert(all.take(i + 1).last() == r@);
            assert forall|j: int| 0 <= j < all.take(i + 1).len() implies (#[trigger] all.take(
                i + 1,
            )[j]).count <= u64::MAX by {
                assert(all.take(i + 1)[j] == m.reactions@[j]@);
            }
            lemma_tally_bounds(all.take(i + 1));
            assert((i + 1) * u64::MAX <= usize::MAX * u64::MAX) by (nonlinear_arith)
                requires
                    i + 1 <= usize::MAX,
            ;
            assert(usize::MAX * u64::MAX <= u128::MAX) by (nonlinear_arith)
                requires
                    usize::MAX <= u64::MAX,
            ;
        }
        up = up + gain_of(r) as u128;
        down = down + loss_of(r) as u128;
        i += 1;
    }
    assert(all.take(i as int) =~= all);
    (up, down)
}

/// The score of a message, or nothing where an `isize` cannot hold it.
pub fn checked_post_votes(m: &Message) -> (votes: Option<isize>)
    ensures
        score_fits(m@) ==> votes == Some(vote_score(m@.reactions) as isize),
        !score_fits(m@) ==> votes is None,
{
    let (up, down) = tally(m);
    if up >= down {
        let margin: u128 = up - down;
        if margin <= isize::MAX as u128 {
            Some(margin as isize)
        } else {
            None
        }
    } else {
        let margin: u128 = down - up;
        if margin <= isize::MAX as u128 {
            Some(-(margin as isize))
        } else if margin - 1 == isize::MAX as u128 {
            Some(isize::MIN)
        } else {
            None
        }
    }
}

/// Whether the score of a message can be held in an `isize`.
pub fn post_votes_fit(m: &Message) -> (fits: bool)
    ensures
        fits == score_fits(m@),
{
    checked_post_votes(m).is_some()
}

/// The score of a message: the counts of its reactions in favour less those
/// against.
pub fn get_post_votes(m: &Message) -> (votes: isize)
    requires
        score_fits(m@),
    ensures
        votes == vote_score(m@.reactions),
{
    match checked_post_votes(m) {
        Some(votes) => votes,
        None => 0,
    }
}

} // verus!

//! The fixed tables of the community: which channels are curated, and whose
//! reactions are not wanted.

use vstd::prelude::*;

verus! {

/// How a channel is curated.
#[derive(Clone, Copy, Debug, PartialEq, Eq, Structural)]
pub enum ChannelClass {
    /// Holds posts only: what is no post is deleted, posts are put to the vote.
    Showcase,
    /// Posts are put to the vote; anything else is left alone.
    VoteOnly,
    /// Not looked at.
    Untracked,
}

/// The channels in which only posts may stand.
pub open spec fn is_showcase_channel(channel_id: u64) -> bool {
    ||| channel_id == 677869233803100171
    ||| channel_id == 964023097843937280
    ||| channel_id == 1294352242719068292
    ||| channel_id == 788975142684459058
    ||| channel_id == 1431695114807410809
}

/// The channels in which posts are put to the vote and nothing is deleted.
pub open spec fn is_vote_channel(channel_id: u64) -> bool {
    channel_id == 660353693283123231
}

/// The users whose reactions are taken off again.
pub open spec fn is_denied_user(user_id: u64) -> bool {
    user_id == 735569837522157629
}

/// The class of a channel, by its id.
pub open spec fn class_of(channel_id: u64) -> ChannelClass {
    if is_showcase_channel(channel_id) {
        ChannelClass::Showcase
    } else if is_vote_channel(channel_id) {
        ChannelClass::VoteOnly
    } else {
        ChannelClass::Untracked
    }
}

/// No channel is both a showcase and a channel for votes only.
pub proof fn lemma_classes_are_disjoint(channel_id: u64)
    ensures
        !(is_showcase_channel(channel_id) && is_vote_channel(channel_id)),
        class_of(channel_id) == ChannelClass::VoteOnly <==> is_vote_channel(channel_id),
        class_of(channel_id) == ChannelClass::Showcase <==> is_showcase_channel(channel_id),
{
}

/// Looks a channel up in the tables.
pub fn classify(channel_id: u64) -> (class: ChannelClass)
    ensures
        class == class_of(channel_id),
{
    if channel_id == 677869233803100171 || channel_id == 964023097843937280 || channel_id
        == 1294352242719068292 || channel_id == 788975142684459058 || channel_id
        == 1431695114807410809 {
        ChannelClass::Showcase
    } else if channel_id == 660353693283123231 {
        ChannelClass::VoteOnly
    } else {
        ChannelClass::Untracked
    }
}

/// Whether the reactions of a user are taken off again.
pub fn is_blacklisted(user_id: u64) -> (denied: bool)
    ensures
        denied == is_denied_user(user_id),
{
    user_id == 735569837522157629
}

} // verus!

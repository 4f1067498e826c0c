//! The handlers that are plugged into the staging: the one that keeps the
//! showcase channels clean and puts posts to the vote, the one that answers
//! a ping, and the one that turns unwanted reactors away.

use vstd::prelude::*;
use crate::channels::{
    class_of, classify, is_blacklisted, is_denied_user, is_showcase_channel, is_vote_channel,
    ChannelClass,
};
use crate::group_system::{DynamicAction, ModerationAction, Propagation, Verdict};
use crate::model::{Event, EventView, Message, MessageView};
use crate::text::{contains, occurs_in, starts_with};
use crate::votes::VoteEmoji;

verus! {

/// What the text of a message begins with where it is a bare link.
pub const LINK_PREFIX: &'static str = "https://";

/// Where the platform keeps the pictures of its emoji. A block that points
/// there shows an emoji and is no content of the author's.
pub const EMOJI_CDN: &'static str = "https://cdn.discordapp.com/emojis";

/// What a message has to hold, in whatever case, to be answered.
pub const PING_TRIGGER: &'static str = "!rizz";

/// The answer to a ping.
pub const PING_REPLY: &'static str = "\\*looksmaxxes\\*";

/// The only block below the message shows an emoji of the platform.
pub open spec fn is_emoji_render(m: MessageView) -> bool {
    m.embeds.len() == 1 && match m.embeds[0].url {
        Some(url) => EMOJI_CDN@.is_prefix_of(url),
        None => false,
    }
}

/// A message is a post where it carries a file or a rich block, or begins
/// as a link; but not where its only block shows an emoji of the platform.
pub open spec fn is_post(m: MessageView) -> bool {
    &&& m.attachments.len() > 0 || m.embeds.len() > 0 || LINK_PREFIX@.is_prefix_of(m.content)
    &&& !is_emoji_render(m)
}

/// The two vote emoji, the one in favour first.
pub open spec fn vote_reactions() -> Seq<ModerationAction> {
    seq![ModerationAction::React(VoteEmoji::Upvote), ModerationAction::React(VoteEmoji::Downvote)]
}

/// What is done about a message in a channel of a given class: a post is
/// put to the vote; what is no post is deleted from a showcase and left
/// alone elsewhere; in a channel that is not curated nothing is done.
pub open spec fn showcase_actions(class: ChannelClass, m: MessageView) -> Seq<ModerationAction> {
    match class {
        ChannelClass::Untracked => Seq::empty(),
        ChannelClass::Showcase => if is_post(m) {
            vote_reactions()
        } else {
            seq![ModerationAction::DeleteMessage]
        },
        ChannelClass::VoteOnly => if is_post(m) {
            vote_reactions()
        } else {
            Seq::empty()
        },
    }
}

/// What the keeper of the showcases asks for on an event.
pub open spec fn cleaner_actions(event: EventView) -> Seq<ModerationAction> {
    match event {
        EventView::Message(m) => showcase_actions(class_of(m.channel_id), m),
        EventView::Reaction(_) => Seq::empty(),
    }
}

/// A message that carries nothing and is no link is deleted from a
/// showcase, and is not put to the vote.
pub proof fn lemma_showcase_deletes_plain_messages(m: MessageView)
    requires
        is_showcase_channel(m.channel_id),
        m.attachments.len() == 0,
        m.embeds.len() == 0,
        !LINK_PREFIX@.is_prefix_of(m.content),
    ensures
        cleaner_actions(EventView::Message(m)) == seq![ModerationAction::DeleteMessage],
        forall|i: int|
            0 <= i < cleaner_actions(EventView::Message(m)).len() ==> !(cleaner_actions(
                EventView::Message(m),
            )[i] is React),
{
}

/// The same message in a channel for votes only is neither deleted nor put
/// to the vote.
pub proof fn lemma_vote_channel_spares_plain_messages(m: MessageView)
    requires
        is_vote_channel(m.channel_id),
        m.attachments.len() == 0,
        m.embeds.len() == 0,
        !LINK_PREFIX@.is_prefix_of(m.content),
    ensures
        cleaner_actions(EventView::Message(m)).len() == 0,
{
}

/// A message whose only block shows an emoji of the platform is no post,
/// whatever else it carries.
pub proof fn lemma_emoji_render_is_no_post(m: MessageView, url: Seq<char>)
    requires
        m.embeds.len() == 1,
        m.embeds[0].url == Some(url),
        EMOJI_CDN@.is_prefix_of(url),
    ensures
        !is_post(m),
{
}

/// Whether a message is a post.
pub fn message_is_post(m: &Message) -> (post: bool)
    ensures
        post == is_post(m@),
{
    let carries = m.attachments.len() > 0 || m.embeds.len() > 0 || starts_with(
        m.content.as_str(),
        LINK_PREFIX,
    );
    let render = m.embeds.len() == 1 && match &m.embeds[0].url {
        Some(url) => starts_with(url.as_str(), EMOJI_CDN),
        None => false,
    };
    carries && !render
}

/// The two vote emoji that a post is given, in the order in which they are
/// put under it.
pub fn add_vote_reactions() -> (actions: Vec<ModerationAction>)
    ensures
        actions@ == vote_reactions(),
{
    let mut actions: Vec<ModerationAction> = Vec::new();
    actions.push(ModerationAction::React(VoteEmoji::Upvote));
    actions.push(ModerationAction::React(VoteEmoji::Downvote));
    assert(actions@ =~= vote_reactions());
    actions
}

/// Moderation: keeps the showcases clean and puts posts to the vote. It
/// never ends the run.
pub fn showcase_cleaner_and_voter(event: &Event) -> (verdict: Verdict)
    ensures
        verdict.actions@ == cleaner_actions(event@),
        verdict.propagation == Propagation::Propagate,
{
    let mut actions: Vec<ModerationAction> = Vec::new();
    match event {
        Event::Message(m) => {
            let class = classify(m.channel_id);
            if class != ChannelClass::Untracked {
                if message_is_post(m) {
                    actions = add_vote_reactions();
                } else if class == ChannelClass::Showcase {
                    actions.push(ModerationAction::DeleteMessage);
                }
            }
        },
        Event::Reaction(_) => {},
    }
    assert(actions@ =~= cleaner_actions(event@));
    Verdict { actions, propagation: Propagation::Propagate }
}

/// What the gatekeeper of reactions hands back on an event: a reaction of a
/// user on the deny list is taken off again, and nothing more is done
/// about it.
pub open spec fn blocker_verdict(event: EventView) -> (Seq<ModerationAction>, Propagation) {
    match event {
        EventView::Reaction(r) => if is_denied_user(r.user_id) {
            (seq![ModerationAction::DeleteReaction], Propagation::Stop)
        } else {
            (Seq::empty(), Propagation::Propagate)
        },
        EventView::Message(_) => (Seq::empty(), Propagation::Propagate),
    }
}

/// Moderation: turns away the reactions of users on the deny list.
pub fn blacklisted_reactor_blocker(event: &Event) -> (verdict: Verdict)
    ensures
        verdict.actions@ == blocker_verdict(event@).0,
        verdict.propagation == blocker_verdict(event@).1,
{
    let mut actions: Vec<ModerationAction> = Vec::new();
    let mut propagation = Propagation::Propagate;
    match event {
        Event::Reaction(r) => {
            if is_blacklisted(r.user_id) {
                actions.push(ModerationAction::DeleteReaction);
                propagation = Propagation::Stop;
            }
        },
        Event::Message(_) => {},
    }
    assert(actions@ =~= blocker_verdict(event@).0);
    Verdict { actions, propagation }
}

/// What a text becomes when each of its characters is put in lower case.
pub uninterp spec fn lowercase(text: Seq<char>) -> Seq<char>;

/// `str::to_lowercase` of the standard library: the text in lower case, as
/// the Unicode tables have it. The contract gives the result its name and
/// says nothing of what it holds.
#[verifier::external_body]
fn to_lowercase(text: &str) -> (lower: String)
    ensures
        lower@ == lowercase(text@),
{
    text.to_lowercase()
}

/// Whether a text in lower case holds the trigger of the ping.
pub fn holds_ping(lower: &str) -> (found: bool)
    ensures
        found == occurs_in(PING_TRIGGER@, lower@),
{
    contains(lower, PING_TRIGGER)
}

/// What the ping responder asks for on an event: the answer, where the
/// text of a message holds the trigger in whatever case.
pub open spec fn ping_actions(event: EventView) -> Seq<DynamicAction> {
    match event {
        EventView::Message(m) => if occurs_in(PING_TRIGGER@, lowercase(m.content)) {
            seq![DynamicAction::Reply(PING_REPLY)]
        } else {
            Seq::empty()
        },
        EventView::Reaction(_) => Seq::empty(),
    }
}

/// Dynamic: answers a ping.
pub fn rizz_ping(event: &Event) -> (actions: Vec<DynamicAction>)
    ensures
        actions@ == ping_actions(event@),
{
    let mut actions: Vec<DynamicAction> = Vec::new();
    match event {
        Event::Message(m) => {
            let lower = to_lowercase(m.content.as_str());
            if holds_ping(lower.as_str()) {
                actions.push(DynamicAction::Reply(PING_REPLY));
            }
        },
        Event::Reaction(_) => {},
    }
    assert(actions@ =~= ping_actions(event@));
    actions
}

} // verus!

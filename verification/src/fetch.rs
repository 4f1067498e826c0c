//! The leaderboard of a channel: what may be asked, and what is answered
//! once the history of the channel has been read.

use vstd::prelude::*;
use vstd::string::StringExecFns;
use crate::cards::{
    card_of, channel_link, channel_url, make_cards, partitions, reply_partitions, Card,
};
use crate::channels::{class_of, ChannelClass};
use crate::model::{Message, MessageView};
use crate::ranking::{
    capture_channel_posts, is_ranked_post, key_of, lemma_every_pool_has_a_ranking,
    lemma_ranking_is_by_score, ranked_posts, ranking_of, scores_fit, Direction,
};
use crate::text::{decimal, push_decimal};
use crate::votes::{score_fits, vote_score};

verus! {

/// The channels that a leaderboard can be asked of.
#[derive(Clone, Copy, Debug, PartialEq, Eq, Structural)]
pub enum ChannelOption {
    Showcase,
    Wallpapers,
    Books,
    Memes,
    GithubShowcase,
    HallOfFame,
}

impl ChannelOption {
    /// The id of the channel.
    pub open spec fn spec_id(self) -> u64 {
        match self {
            ChannelOption::Showcase => 677869233803100171,
            ChannelOption::Wallpapers => 964023097843937280,
            ChannelOption::Books => 1294352242719068292,
            ChannelOption::Memes => 660353693283123231,
            ChannelOption::GithubShowcase => 788975142684459058,
            ChannelOption::HallOfFame => 1431695114807410809,
        }
    }

    /// The id of the channel.
    #[verifier::when_used_as_spec(spec_id)]
    pub fn id(self) -> (id: u64)
        ensures
            id == self.spec_id(),
    {
        match self {
            ChannelOption::Showcase => 677869233803100171,
            ChannelOption::Wallpapers => 964023097843937280,
            ChannelOption::Books => 1294352242719068292,
            ChannelOption::Memes => 660353693283123231,
            ChannelOption::GithubShowcase => 788975142684459058,
            ChannelOption::HallOfFame => 1431695114807410809,
        }
    }
}

/// A leaderboard can be asked of curated channels only, and of each of them.
pub proof fn lemma_options_are_the_curated_channels(channel_id: u64)
    ensures
        class_of(channel_id) != ChannelClass::Untracked <==> exists|option: ChannelOption|
            #[trigger] option.spec_id() == channel_id,
{
    if class_of(channel_id) != ChannelClass::Untracked {
        if channel_id == ChannelOption::Showcase.spec_id() {
        } else if channel_id == ChannelOption::Wallpapers.spec_id() {
        } else if channel_id == ChannelOption::Books.spec_id() {
        } else if channel_id == ChannelOption::Memes.spec_id() {
        } else if channel_id == ChannelOption::GithubShowcase.spec_id() {
        } else {
            assert(channel_id == ChannelOption::HallOfFame.spec_id());
        }
    }
}

/// What is asked: so many posts of a channel, from one end of its ranking.
#[derive(Clone, Copy, Debug, PartialEq, Eq, Structural)]
pub struct RankingRequest {
    pub channel: ChannelOption,
    pub direction: Direction,
    pub count: usize,
}

/// Why a request is turned down before anything is read.
#[derive(Clone, Copy, Debug, PartialEq, Eq, Structural)]
pub enum ValidationError {
    /// Both ends of the ranking were asked for.
    Both,
    /// Neither end was asked for.
    Neither,
}

/// What the requester is told where both ends were asked for.
pub const ONLY_ONE: &'static str = "You can only specify either `top` or `lowest`, not both!";

/// What the requester is told where neither end was asked for.
pub const AT_LEAST_ONE: &'static str = "You must specify either one of `top` or `lowest`";

impl ValidationError {
    /// What the requester is told.
    pub fn message(self) -> (text: &'static str)
        ensures
            text@ == match self {
                ValidationError::Both => ONLY_ONE@,
                ValidationError::Neither => AT_LEAST_ONE@,
            },
    {
        match self {
            ValidationError::Both => ONLY_ONE,
            ValidationError::Neither => AT_LEAST_ONE,
        }
    }
}

/// The request that `top` and `lowest` make of a channel: exactly one of
/// them has to be given.
pub open spec fn validated(
    top: Option<usize>,
    lowest: Option<usize>,
    channel: ChannelOption,
) -> Result<RankingRequest, ValidationError> {
    match (top, lowest) {
        (Some(_), Some(_)) => Err(ValidationError::Both),
        (None, None) => Err(ValidationError::Neither),
        (Some(n), None) => Ok(RankingRequest { channel, direction: Direction::Top, count: n }),
        (None, Some(n)) => Ok(RankingRequest { channel, direction: Direction::Lowest, count: n }),
    }
}

/// Checks a request. It looks at nothing but what was asked, so that a
/// request that is turned down costs no reading of the channel. A number
/// that is given is 1 at least.
pub fn validate_request(top: Option<usize>, lowest: Option<usize>, channel: ChannelOption) -> (request:
    Result<RankingRequest, ValidationError>)
    requires
        top matches Some(n) ==> n >= 1,
        lowest matches Some(n) ==> n >= 1,
    ensures
        request == validated(top, lowest, channel),
        request matches Ok(r) ==> r.count >= 1,
{
    match (top, lowest) {
        (Some(_), Some(_)) => Err(ValidationError::Both),
        (None, None) => Err(ValidationError::Neither),
        (Some(n), None) => Ok(RankingRequest { channel, direction: Direction::Top, count: n }),
        (None, Some(n)) => Ok(RankingRequest { channel, direction: Direction::Lowest, count: n }),
    }
}

/// The words of the notice that a channel holds too few posts.
pub const ONLY_HAS: &'static str = " only has ";

/// The end of that notice.
pub const POSTS_END: &'static str = " posts.";

/// The heading of a leaderboard of the highest scores begins with this.
pub const TOP: &'static str = "Top";

/// The heading of a leaderboard of the lowest scores begins with this.
pub const LOWEST: &'static str = "Lowest";

/// What parts the words of the heading.
pub const SPACE: &'static str = " ";

/// The words of the heading before the channel's name.
pub const POSTS_IN: &'static str = " posts in #";

/// What the requester is told where the channel holds fewer ranked posts
/// than were asked for: the channel, and how many it holds.
pub open spec fn partial_notice(guild_id: u64, channel_id: u64, found: nat) -> Seq<char> {
    channel_link(guild_id, channel_id) + ONLY_HAS@ + decimal(found) + POSTS_END@
}

/// The heading of a leaderboard.
pub open spec fn board_title(direction: Direction, count: nat, channel_name: Seq<char>) -> Seq<
    char,
> {
    (match direction {
        Direction::Top => TOP@,
        Direction::Lowest => LOWEST@,
    }) + SPACE@ + decimal(count) + POSTS_IN@ + channel_name
}

/// The notice that a channel holds fewer ranked posts than were asked for.
pub fn partial_result_notice(guild_id: u64, channel_id: u64, found: usize) -> (notice: String)
    ensures
        notice@ == partial_notice(guild_id, channel_id, found as nat),
{
    let mut notice = channel_url(guild_id, channel_id);
    notice.append(ONLY_HAS);
    push_decimal(&mut notice, found as u64);
    notice.append(POSTS_END);
    notice
}

/// The heading of a leaderboard.
pub fn leaderboard_title(direction: Direction, count: usize, channel_name: &str) -> (title: String)
    ensures
        title@ == board_title(direction, count as nat, channel_name@),
{
    let mut title = String::from_str(
        match direction {
            Direction::Top => TOP,
            Direction::Lowest => LOWEST,
        },
    );
    title.append(SPACE);
    push_decimal(&mut title, count as u64);
    title.append(POSTS_IN);
    title.append(channel_name);
    title
}

/// What the requester gets.
#[derive(Clone, Debug, PartialEq, Eq)]
pub enum FetchReply {
    /// The channel holds fewer ranked posts than were asked for.
    Partial { notice: String },
    /// The leaderboard: its heading, the cards in the order of the ranking,
    /// and the number of messages that they are sent in.
    Ranked { title: String, cards: Vec<Card>, partitions: usize },
}

/// `reply` is what is due to a request, given the ranking of the channel's
/// posts: the notice where they are fewer than were asked for; else the
/// cards of the first so many of them, under their heading, with the
/// number of messages that it takes to send them.
pub open spec fn answers(
    reply: FetchReply,
    request: RankingRequest,
    guild_id: u64,
    channel_name: Seq<char>,
    posts: Seq<Message>,
) -> bool {
    if posts.len() < request.count {
        reply matches FetchReply::Partial { notice } && notice@ == partial_notice(
            guild_id,
            request.channel.spec_id(),
            posts.len(),
        )
    } else {
        reply matches FetchReply::Ranked { title, cards, partitions: messages } && {
            &&& title@ == board_title(request.direction, request.count as nat, channel_name)
            &&& cards@.len() == request.count
            &&& forall|i: int|
                0 <= i < request.count ==> (#[trigger] cards@[i])@ == card_of(posts[i]@)
            &&& messages == partitions(request.count as nat)
        }
    }
}

/// There is one score: what a card shows and what the ranking goes by is
/// the score of the message, which rests on its reactions alone.
pub proof fn lemma_one_score_everywhere(direction: Direction, a: MessageView, b: MessageView)
    requires
        a.reactions == b.reactions,
    ensures
        card_of(a).score == vote_score(a.reactions),
        key_of(direction, a) == direction.spec_coefficient() * vote_score(a.reactions),
        card_of(a).score == card_of(b).score,
        key_of(direction, a) == key_of(direction, b),
{
}

/// In a leaderboard each card shows the score of its post, and the cards
/// stand by their scores: from the highest down where the top was asked
/// for, from the lowest up otherwise.
pub proof fn lemma_cards_stand_by_their_scores(
    reply: FetchReply,
    request: RankingRequest,
    guild_id: u64,
    channel_name: Seq<char>,
    history: Seq<Message>,
    i: int,
    j: int,
)
    requires
        answers(
            reply,
            request,
            guild_id,
            channel_name,
            ranking_of(ranked_posts(history), request.direction),
        ),
        reply is Ranked,
        0 <= i <= j < request.count,
    ensures
        reply->cards@[i]@.score == vote_score(
            ranking_of(ranked_posts(history), request.direction)[i]@.reactions,
        ),
        match request.direction {
            Direction::Top => reply->cards@[i]@.score >= reply->cards@[j]@.score,
            Direction::Lowest => reply->cards@[i]@.score <= reply->cards@[j]@.score,
        },
{
    let pool = ranked_posts(history);
    let posts = ranking_of(pool, request.direction);
    lemma_every_pool_has_a_ranking(pool, request.direction);
    lemma_ranking_is_by_score(posts, pool, request.direction);
    assert(reply->cards@[i]@ == card_of(posts[i]@));
    assert(reply->cards@[j]@ == card_of(posts[j]@));
}

/// Answers a request that was found valid, from the history of its channel,
/// the name of the channel and the id of the community it belongs to.
pub fn fetch(request: RankingRequest, guild_id: u64, channel_name: &str, history: Vec<Message>) -> (reply:
    FetchReply)
    requires
        scores_fit(history@),
    ensures
        answers(
            reply,
            request,
            guild_id,
            channel_name@,
            ranking_of(ranked_posts(history@), request.direction),
        ),
{
    let ghost pool = ranked_posts(history@);
    proof {
        let keep = |m: Message| is_ranked_post(m@);
        assert forall|i: int| 0 <= i < pool.len() implies score_fits((#[trigger] pool[i])@) by {
            history@.lemma_filter_contains_rev(keep, pool[i]);
            history@.lemma_filter_pred(keep, i);
        }
    }
    let posts = capture_channel_posts(history, request.direction);
    proof {
        lemma_ranking_is_by_score(posts@, pool, request.direction);
    }
    let reply = if posts.len() < request.count {
        FetchReply::Partial {
            notice: partial_result_notice(guild_id, request.channel.id(), posts.len()),
        }
    } else {
        FetchReply::Ranked {
            title: leaderboard_title(request.direction, request.count, channel_name),
            cards: make_cards(&posts, request.count),
            partitions: reply_partitions(request.count),
        }
    };
    assert(answers(reply, request, guild_id, channel_name@, posts@));
    reply
}

} // verus!

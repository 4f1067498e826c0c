//! What is shown of a post, and how the cards of a leaderboard are dealt
//! out over the messages that carry them.

use vstd::prelude::*;
use vstd::slice::slice_subrange;
use vstd::string::StringExecFns;
use crate::model::{text_view, EmbedView, Message, MessageView};
use crate::text::{
    decimal, push_decimal, push_signed_decimal, signed_decimal, trim_title, trimmed,
};
use crate::votes::{get_post_votes, score_fits, vote_score};

verus! {

/// Where the links to channels and messages begin.
pub const CHANNELS_URL: &'static str = "https://discord.com/channels/";

/// What stands in a link in place of a community, for a private conversation.
pub const PRIVATE: &'static str = "@me";

/// What parts the ids in a link.
pub const SLASH: &'static str = "/";

/// Where the links to the pictures of users begin.
pub const AVATARS_URL: &'static str = "https://cdn.discordapp.com/avatars/";

/// How such a link ends.
pub const WEBP: &'static str = ".webp";

/// What stands before the author in the text of a card.
pub const AUTHOR_LINE: &'static str = "🪶 author •• ";

/// What stands before the score.
pub const LIKES_LINE: &'static str = "\n💙 likes ••• ";

/// What stands before the link to the post.
pub const LINK_LINE: &'static str = "\n🔗 link •••• ";

/// How many cards go into one message at most.
pub const BATCH: usize = 10;

/// The link to a channel of a community.
pub open spec fn channel_link(guild_id: u64, channel_id: u64) -> Seq<char> {
    CHANNELS_URL@ + decimal(guild_id as nat) + SLASH@ + decimal(channel_id as nat)
}

/// The link to a message: to its community, or to the private
/// conversations where it has none, then to its channel and to itself.
pub open spec fn message_link(guild_id: Option<u64>, channel_id: u64, message_id: u64) -> Seq<
    char,
> {
    CHANNELS_URL@ + (match guild_id {
        Some(id) => decimal(id as nat),
        None => PRIVATE@,
    }) + SLASH@ + decimal(channel_id as nat) + SLASH@ + decimal(message_id as nat)
}

/// The link to the picture of a user, from the user's id and the hash of
/// the picture.
pub open spec fn avatar_link(user_id: u64, hash: Seq<char>) -> Seq<char> {
    AVATARS_URL@ + decimal(user_id as nat) + SLASH@ + hash + WEBP@
}

/// The text of a card: the author, the score and the link, a line each.
pub open spec fn description_of(author: Seq<char>, score: int, link: Seq<char>) -> Seq<char> {
    AUTHOR_LINE@ + author + LIKES_LINE@ + signed_decimal(score) + LINK_LINE@ + link
}

/// The pictures that the blocks below a message show, in their order.
pub open spec fn embed_images(embeds: Seq<EmbedView>) -> Seq<Seq<char>> {
    embeds.filter_map(|e: EmbedView| e.image)
}

/// What is shown of one post.
#[derive(Clone, Debug, PartialEq, Eq)]
pub struct Card {
    /// The name the author is shown under.
    pub author: String,
    /// The link to the author's picture, where the author has one.
    pub thumbnail: Option<String>,
    /// The text of the post, capped.
    pub title: String,
    /// The author, the score and the link, a line each.
    pub description: String,
    /// When the post was written, in seconds since the epoch.
    pub timestamp: i64,
    pub score: isize,
    /// The link to the post.
    pub link: String,
    /// The pictures of the post: those of its blocks, then its files. Where
    /// only one can be shown, the last is.
    pub images: Vec<String>,
}

/// A card as plain text and numbers.
pub struct CardView {
    pub author: Seq<char>,
    pub thumbnail: Option<Seq<char>>,
    pub title: Seq<char>,
    pub description: Seq<char>,
    pub timestamp: i64,
    pub score: int,
    pub link: Seq<char>,
    pub images: Seq<Seq<char>>,
}

impl View for Card {
    type V = CardView;

    open spec fn view(&self) -> CardView {
        CardView {
            author: self.author@,
            thumbnail: text_view(self.thumbnail),
            title: self.title@,
            description: self.description@,
            timestamp: self.timestamp,
            score: self.score as int,
            link: self.link@,
            images: self.images@.map_values(|url: String| url@),
        }
    }
}

/// The card of a post.
pub open spec fn card_of(m: MessageView) -> CardView {
    CardView {
        author: m.author.display_name(),
        thumbnail: match m.author.avatar {
            Some(hash) => Some(avatar_link(m.author.id, hash)),
            None => None,
        },
        title: trimmed(m.content),
        description: description_of(
            m.author.display_name(),
            vote_score(m.reactions),
            message_link(m.guild_id, m.channel_id, m.id),
        ),
        timestamp: m.timestamp,
        score: vote_score(m.reactions),
        link: message_link(m.guild_id, m.channel_id, m.id),
        images: embed_images(m.embeds) + m.attachments,
    }
}

/// How many messages it takes to show `count` cards: as many as are full,
/// and one more for what is left.
pub open spec fn partitions(count: nat) -> nat {
    (count + BATCH - 1) as nat / BATCH as nat
}

/// The part of `items` from `start` up to `end`, as far as `items` reaches:
/// nothing where it begins behind the last item, and up to the last item
/// where it ends behind it.
pub open spec fn clipped<T>(items: Seq<T>, start: int, end: int) -> Seq<T> {
    if start >= items.len() {
        Seq::empty()
    } else if end >= items.len() {
        items.subrange(start, items.len() as int)
    } else {
        items.subrange(start, end)
    }
}

/// The cards of the message with number `index`, counted from 0.
pub open spec fn batch_of<T>(items: Seq<T>, index: nat) -> Seq<T> {
    clipped(items, BATCH * index, BATCH * index + BATCH)
}

/// No message holds more cards than fit, and the messages that are sent for
/// as many cards as there are hold each card once, in order: the card at
/// place `at` stands in message `at / BATCH`, at place `at % BATCH`.
pub proof fn lemma_batches_hold_every_card<T>(items: Seq<T>, at: int)
    requires
        0 <= at < items.len(),
    ensures
        at / (BATCH as int) < partitions(items.len()),
        at % (BATCH as int) < batch_of(items, (at / (BATCH as int)) as nat).len() <= BATCH,
        batch_of(items, (at / (BATCH as int)) as nat)[at % (BATCH as int)] == items[at],
{
}

/// The cards of a message are a run of the cards as they stand: the one
/// at place `place` of message `index` is the card at place
/// `BATCH * index + place`. So the messages follow the order of the cards,
/// every card of one before every card of the next, and no card is in two
/// of them.
pub proof fn lemma_batches_follow_the_order<T>(items: Seq<T>, index: nat, place: int)
    requires
        0 <= place < batch_of(items, index).len(),
    ensures
        batch_of(items, index).len() <= BATCH,
        BATCH * index + place < items.len(),
        batch_of(items, index)[place] == items[BATCH * index + place],
{
}

/// The message after the last that is sent holds nothing.
pub proof fn lemma_no_card_is_left<T>(items: Seq<T>, index: nat)
    requires
        index >= partitions(items.len()),
    ensures
        batch_of(items, index).len() == 0,
{
}

/// The link to a channel of a community.
pub fn channel_url(guild_id: u64, channel_id: u64) -> (link: String)
    ensures
        link@ == channel_link(guild_id, channel_id),
{
    let mut link = String::from_str(CHANNELS_URL);
    push_decimal(&mut link, guild_id);
    link.append(SLASH);
    push_decimal(&mut link, channel_id);
    link
}

/// The link to a message.
pub fn message_url(guild_id: Option<u64>, channel_id: u64, message_id: u64) -> (link: String)
    ensures
        link@ == message_link(guild_id, channel_id, message_id),
{
    let mut link = String::from_str(CHANNELS_URL);
    match guild_id {
        Some(id) => push_decimal(&mut link, id),
        None => link.append(PRIVATE),
    }
    link.append(SLASH);
    push_decimal(&mut link, channel_id);
    link.append(SLASH);
    push_decimal(&mut link, message_id);
    link
}

/// The link to the picture of a user.
pub fn avatar_url(user_id: u64, hash: &str) -> (link: String)
    ensures
        link@ == avatar_link(user_id, hash@),
{
    let mut link = String::from_str(AVATARS_URL);
    push_decimal(&mut link, user_id);
    link.append(SLASH);
    link.append(hash);
    link.append(WEBP);
    link
}

/// The text of a card.
pub fn describe(author: &str, score: isize, link: &str) -> (text: String)
    ensures
        text@ == description_of(author@, score as int, link@),
{
    let mut text = String::from_str(AUTHOR_LINE);
    text.append(author);
    text.append(LIKES_LINE);
    push_signed_decimal(&mut text, score);
    text.append(LINK_LINE);
    text.append(link);
    text
}

/// The pictures of a post: those of its blocks, then its files.
fn images_of(m: &Message) -> (images: Vec<String>)
    ensures
        images@.map_values(|url: String| url@) == embed_images(m@.embeds) + m@.attachments,
{
    let ghost embeds = m@.embeds;
    let ghost files = m@.attachments;
    let ghost pick = |e: EmbedView| e.image;
    let mut images: Vec<String> = Vec::new();
    let mut i: usize = 0;
    while i < m.embeds.len()
        invariant
            embeds == m@.embeds,
            pick == |e: EmbedView| e.image,
            i <= m.embeds@.len(),
            images@.map_values(|url: String| url@) == embeds.take(i as int).filter_map(pick),
        decreases m.embeds@.len() - i,
    {
        proof {
            embeds.lemma_filter_map_take_succ(pick, i as int);
        }
        let ghost before = images@;
        match &m.embeds[i].image {
            Some(url) => {
                images.push(url.clone());
                assert(images@.map_values(|url: String| url@) =~= before.map_values(
                    |url: String| url@,
                ) + seq![url@]);
            },
            None => {
                assert(embeds.take(i as int).filter_map(pick) + Seq::<Seq<char>>::empty()
                    =~= embeds.take(i as int).filter_map(pick));
            },
        }
        i += 1;
    }
    assert(embeds.take(i as int) =~= embeds);
    let mut j: usize = 0;
    while j < m.attachments.len()
        invariant
            embeds == m@.embeds,
            files == m@.attachments,
            j <= m.attachments@.len(),
            images@.map_values(|url: String| url@) == embed_images(embeds) + files.take(j as int),
        decreases m.attachments@.len() - j,
    {
        let ghost before = images@;
        images.push(m.attachments[j].url.clone());
        assert(images@.map_values(|url: String| url@) =~= before.map_values(|url: String| url@)
            + seq![files[j as int]]);
        assert(files.take(j + 1) =~= files.take(j as int) + seq![files[j as int]]);
        j += 1;
    }
    assert(files.take(j as int) =~= files);
    images
}

/// Lays out the card of a post.
pub fn make_card(m: &Message) -> (card: Card)
    requires
        score_fits(m@),
    ensures
        card@ == card_of(m@),
{
    let author = match &m.author.global_name {
        Some(name) => name.clone(),
        None => m.author.name.clone(),
    };
    let thumbnail = match &m.author.avatar {
        Some(hash) => Some(avatar_url(m.author.id, hash.as_str())),
        None => None,
    };
    let score = get_post_votes(m);
    let link = message_url(m.guild_id, m.channel_id, m.id);
    let description = describe(author.as_str(), score, link.as_str());
    Card {
        author,
        thumbnail,
        title: trim_title(m.content.as_str()),
        description,
        timestamp: m.timestamp,
        score,
        link,
        images: images_of(m),
    }
}

/// Lays out the cards of the first `count` posts, or of all where there are
/// fewer.
pub fn make_cards(posts: &Vec<Message>, count: usize) -> (cards: Vec<Card>)
    requires
        forall|i: int| 0 <= i < posts@.len() ==> score_fits((#[trigger] posts@[i])@),
    ensures
        cards@.len() == if count <= posts@.len() {
            count as nat
        } else {
            posts@.len()
        },
        forall|i: int| 0 <= i < cards@.len() ==> (#[trigger] cards@[i])@ == card_of(posts@[i]@),
{
    let mut cards: Vec<Card> = Vec::new();
    let mut i: usize = 0;
    while i < count && i < posts.len()
        invariant
            i <= count,
            i <= posts@.len(),
            forall|k: int| 0 <= k < posts@.len() ==> score_fits((#[trigger] posts@[k])@),
            cards@.len() == i,
            forall|k: int| 0 <= k < i ==> (#[trigger] cards@[k])@ == card_of(posts@[k]@),
        decreases count - i,
    {
        cards.push(make_card(&posts[i]));
        i += 1;
    }
    cards
}

/// How many messages it takes to show `count` cards.
pub fn reply_partitions(count: usize) -> (messages: usize)
    ensures
        messages == partitions(count as nat),
{
    if count % BATCH == 0 {
        count / BATCH
    } else {
        count / BATCH + 1
    }
}

/// The part of `items` from `start` up to `end`. Where a bound lies behind
/// the last item, the part ends with the last item. A part that begins
/// among the items does not end before it begins.
pub fn fallback_slice<T>(items: &[T], start: usize, end: usize) -> (part: &[T])
    requires
        start <= end || start >= items@.len(),
    ensures
        part@ == clipped(items@, start as int, end as int),
{
    if start >= items.len() {
        return slice_subrange(items, items.len(), items.len());
    }
    if end >= items.len() {
        return slice_subrange(items, start, items.len());
    }
    slice_subrange(items, start, end)
}

/// The cards of the message with number `index`, counted from 0.
pub fn batch<T>(items: &[T], index: usize) -> (part: &[T])
    ensures
        part@ == batch_of(items@, index as nat),
{
    let len: usize = items.len();
    match index.checked_mul(BATCH) {
        Some(start) => match start.checked_add(BATCH) {
            Some(end) => fallback_slice(items, start, end),
            None => fallback_slice(items, start, usize::MAX),
        },
        None => fallback_slice(items, len, len),
    }
}

} // verus!

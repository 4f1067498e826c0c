use showcase_curator::group_system::{DynamicAction, ModerationAction, Propagation};
use showcase_curator::model::{Attachment, Author, Embed, Emoji, Event, Message, Reaction};
use showcase_curator::systems::{
    add_vote_reactions, blacklisted_reactor_blocker, holds_ping, message_is_post, rizz_ping,
    showcase_cleaner_and_voter,
};
use showcase_curator::votes::VoteEmoji;

const SHOWCASE: u64 = 677869233803100171;
const MEMES: u64 = 660353693283123231;
const ELSEWHERE: u64 = 5;

fn plain(channel_id: u64, content: &str) -> Message {
    Message {
        id: 10,
        channel_id,
        guild_id: Some(647981638348832790),
        author: Author { id: 20, name: String::from("bob"), global_name: None, avatar: None },
        content: String::from(content),
        attachments: vec![],
        embeds: vec![],
        reactions: vec![],
        timestamp: 1_700_000_000,
    }
}

fn file(url: &str) -> Attachment {
    Attachment { url: String::from(url) }
}

fn block(url: Option<&str>) -> Embed {
    Embed { url: url.map(String::from), image: None }
}

fn votes() -> Vec<ModerationAction> {
    vec![ModerationAction::React(VoteEmoji::Upvote), ModerationAction::React(VoteEmoji::Downvote)]
}

fn reaction_by(user_id: u64) -> Event {
    Event::Reaction(Reaction {
        user_id,
        emoji: Emoji::Unicode(String::from("👍")),
        message_id: 10,
        channel_id: SHOWCASE,
    })
}

#[test]
fn a_message_with_a_file_a_block_or_a_link_is_a_post() {
    let mut with_file = plain(SHOWCASE, "look");
    with_file.attachments.push(file("https://cdn.example/a.png"));
    assert!(message_is_post(&with_file));
    let mut with_block = plain(SHOWCASE, "look");
    with_block.embeds.push(block(Some("https://example.org")));
    assert!(message_is_post(&with_block));
    assert!(message_is_post(&plain(SHOWCASE, "https://example.org/art")));
}

#[test]
fn a_message_without_any_of_them_is_no_post() {
    assert!(!message_is_post(&plain(SHOWCASE, "hello there")));
    assert!(!message_is_post(&plain(SHOWCASE, "")));
    assert!(!message_is_post(&plain(SHOWCASE, "see https://example.org")));
    assert!(!message_is_post(&plain(SHOWCASE, "http://example.org")));
    assert!(!message_is_post(&plain(SHOWCASE, "HTTPS://example.org")));
}

#[test]
fn a_sole_emoji_block_makes_no_post() {
    let mut m = plain(SHOWCASE, "lol");
    m.embeds.push(block(Some("https://cdn.discordapp.com/emojis/123.png")));
    assert!(!message_is_post(&m));
    m.attachments.push(file("https://cdn.example/a.png"));
    assert!(!message_is_post(&m));
    let mut link = plain(SHOWCASE, "https://example.org");
    link.embeds.push(block(Some("https://cdn.discordapp.com/emojis")));
    assert!(!message_is_post(&link));
}

#[test]
fn an_emoji_block_among_others_does_not_spoil_a_post() {
    let mut m = plain(SHOWCASE, "lol");
    m.embeds.push(block(Some("https://cdn.discordapp.com/emojis/123.png")));
    m.embeds.push(block(Some("https://example.org")));
    assert!(message_is_post(&m));
    let mut no_url = plain(SHOWCASE, "lol");
    no_url.embeds.push(block(None));
    assert!(message_is_post(&no_url));
    let mut near = plain(SHOWCASE, "lol");
    near.embeds.push(block(Some("https://cdn.discordapp.com/emoji")));
    assert!(message_is_post(&near));
}

#[test]
fn showcase_deletes_what_is_no_post() {
    let verdict = showcase_cleaner_and_voter(&Event::Message(plain(SHOWCASE, "nice work!")));
    assert_eq!(verdict.actions, vec![ModerationAction::DeleteMessage]);
    assert_eq!(verdict.propagation, Propagation::Propagate);
}

#[test]
fn vote_channel_spares_what_is_no_post() {
    let verdict = showcase_cleaner_and_voter(&Event::Message(plain(MEMES, "nice work!")));
    assert_eq!(verdict.actions, vec![]);
    assert_eq!(verdict.propagation, Propagation::Propagate);
}

#[test]
fn showcase_deletes_an_emoji_render() {
    let mut m = plain(SHOWCASE, ":wave:");
    m.embeds.push(block(Some("https://cdn.discordapp.com/emojis/77.webp")));
    let verdict = showcase_cleaner_and_voter(&Event::Message(m.clone()));
    assert_eq!(verdict.actions, vec![ModerationAction::DeleteMessage]);
    m.channel_id = MEMES;
    assert_eq!(showcase_cleaner_and_voter(&Event::Message(m)).actions, vec![]);
}

#[test]
fn posts_are_put_to_the_vote_in_both_kinds_of_channel() {
    let post = plain(SHOWCASE, "https://example.org/art");
    let verdict = showcase_cleaner_and_voter(&Event::Message(post));
    assert_eq!(verdict.actions, votes());
    assert_eq!(verdict.propagation, Propagation::Propagate);
    let meme = plain(MEMES, "https://example.org/meme");
    assert_eq!(showcase_cleaner_and_voter(&Event::Message(meme)).actions, votes());
}

#[test]
fn untracked_channels_are_left_alone() {
    let chat = showcase_cleaner_and_voter(&Event::Message(plain(ELSEWHERE, "hello")));
    assert_eq!(chat.actions, vec![]);
    assert_eq!(chat.propagation, Propagation::Propagate);
    let link = showcase_cleaner_and_voter(&Event::Message(plain(ELSEWHERE, "https://example.org")));
    assert_eq!(link.actions, vec![]);
}

#[test]
fn the_cleaner_passes_reactions_by() {
    let verdict = showcase_cleaner_and_voter(&reaction_by(735569837522157629));
    assert_eq!(verdict.actions, vec![]);
    assert_eq!(verdict.propagation, Propagation::Propagate);
}

#[test]
fn add_vote_reactions_gives_upvote_first() {
    assert_eq!(add_vote_reactions(), votes());
}

#[test]
fn a_denied_user_is_turned_away() {
    let verdict = blacklisted_reactor_blocker(&reaction_by(735569837522157629));
    assert_eq!(verdict.actions, vec![ModerationAction::DeleteReaction]);
    assert_eq!(verdict.propagation, Propagation::Stop);
}

#[test]
fn other_users_may_react() {
    let verdict = blacklisted_reactor_blocker(&reaction_by(1));
    assert_eq!(verdict.actions, vec![]);
    assert_eq!(verdict.propagation, Propagation::Propagate);
}

#[test]
fn the_blocker_passes_messages_by() {
    let mut m = plain(SHOWCASE, "hello");
    m.author.id = 735569837522157629;
    let verdict = blacklisted_reactor_blocker(&Event::Message(m));
    assert_eq!(verdict.actions, vec![]);
    assert_eq!(verdict.propagation, Propagation::Propagate);
}

#[test]
fn a_ping_is_answered_in_whatever_case() {
    let answer = vec![DynamicAction::Reply("\\*looksmaxxes\\*")];
    assert_eq!(rizz_ping(&Event::Message(plain(ELSEWHERE, "!rizz"))), answer);
    assert_eq!(rizz_ping(&Event::Message(plain(ELSEWHERE, "hey !RIZZ me"))), answer);
    assert_eq!(rizz_ping(&Event::Message(plain(SHOWCASE, "so !RiZz"))), answer);
}

#[test]
fn what_holds_no_ping_is_not_answered() {
    assert_eq!(rizz_ping(&Event::Message(plain(ELSEWHERE, "rizz"))), vec![]);
    assert_eq!(rizz_ping(&Event::Message(plain(ELSEWHERE, "! rizz"))), vec![]);
    assert_eq!(rizz_ping(&Event::Message(plain(ELSEWHERE, ""))), vec![]);
    assert_eq!(rizz_ping(&reaction_by(1)), vec![]);
}

#[test]
fn holds_ping_looks_for_the_trigger_as_it_stands() {
    assert!(holds_ping("!rizz"));
    assert!(holds_ping("a !rizz b"));
    assert!(!holds_ping("!RIZZ"));
    assert!(!holds_ping("!riz"));
}

use showcase_curator::cards::{batch, fallback_slice};
use showcase_curator::fetch::{
    fetch, leaderboard_title, partial_result_notice, validate_request, ChannelOption, FetchReply,
    RankingRequest, ValidationError,
};
use showcase_curator::ranking::Direction;
use showcase_curator::model::{Author, Emoji, Message, MessageReaction};

const GUILD: u64 = 647981638348832790;
const SHOWCASE: u64 = 677869233803100171;

fn upvotes(count: u64) -> MessageReaction {
    MessageReaction {
        emoji: Emoji::Custom { id: 1343553189508681728, name: Some(String::from("upvote")) },
        count,
    }
}

fn downvotes(count: u64) -> MessageReaction {
    MessageReaction {
        emoji: Emoji::Custom { id: 1343558658872709141, name: Some(String::from("downvote")) },
        count,
    }
}

fn post(id: u64, up: u64, down: u64) -> Message {
    Message {
        id,
        channel_id: SHOWCASE,
        guild_id: Some(GUILD),
        author: Author {
            id: 1000 + id,
            name: format!("user{}", id),
            global_name: None,
            avatar: Some(String::from("abc")),
        },
        content: format!("post {}", id),
        attachments: vec![],
        embeds: vec![],
        reactions: vec![upvotes(up), downvotes(down)],
        timestamp: 1_700_000_000 + id as i64,
    }
}

fn chat(id: u64) -> Message {
    let mut m = post(id, 0, 0);
    m.reactions.clear();
    m
}

fn twelve() -> Vec<Message> {
    vec![
        post(1, 5, 0),
        post(2, 9, 1),
        post(3, 0, 4),
        chat(100),
        post(4, 12, 0),
        post(5, 3, 3),
        post(6, 7, 0),
        post(7, 1, 0),
        post(8, 20, 2),
        chat(101),
        post(9, 2, 0),
        post(10, 6, 0),
        post(11, 4, 0),
        post(12, 30, 0),
    ]
}

#[test]
fn both_ends_at_once_are_turned_down() {
    assert_eq!(validate_request(Some(3), Some(4), ChannelOption::Books), Err(ValidationError::Both));
    assert_eq!(
        ValidationError::Both.message(),
        "You can only specify either `top` or `lowest`, not both!"
    );
}

#[test]
fn neither_end_is_turned_down() {
    assert_eq!(validate_request(None, None, ChannelOption::Books), Err(ValidationError::Neither));
    assert_eq!(
        ValidationError::Neither.message(),
        "You must specify either one of `top` or `lowest`"
    );
}

#[test]
fn one_end_makes_a_request() {
    assert_eq!(
        validate_request(Some(5), None, ChannelOption::Memes),
        Ok(RankingRequest { channel: ChannelOption::Memes, direction: Direction::Top, count: 5 })
    );
    assert_eq!(
        validate_request(None, Some(2), ChannelOption::HallOfFame),
        Ok(RankingRequest {
            channel: ChannelOption::HallOfFame,
            direction: Direction::Lowest,
            count: 2,
        })
    );
}

#[test]
fn the_options_are_the_curated_channels() {
    assert_eq!(ChannelOption::Showcase.id(), 677869233803100171);
    assert_eq!(ChannelOption::Wallpapers.id(), 964023097843937280);
    assert_eq!(ChannelOption::Books.id(), 1294352242719068292);
    assert_eq!(ChannelOption::Memes.id(), 660353693283123231);
    assert_eq!(ChannelOption::GithubShowcase.id(), 788975142684459058);
    assert_eq!(ChannelOption::HallOfFame.id(), 1431695114807410809);
}

#[test]
fn too_few_posts_give_a_notice_with_their_number() {
    let history = vec![post(1, 5, 0), chat(50), post(2, 1, 0), post(3, 2, 0), chat(51)];
    let request = validate_request(Some(5), None, ChannelOption::Showcase).unwrap();
    let reply = fetch(request, GUILD, "showcase", history);
    assert_eq!(
        reply,
        FetchReply::Partial {
            notice: String::from(
                "https://discord.com/channels/647981638348832790/677869233803100171 only has 3 posts."
            ),
        }
    );
}

#[test]
fn an_empty_channel_has_no_posts() {
    let request = RankingRequest { channel: ChannelOption::Memes, direction: Direction::Lowest, count: 1 };
    let reply = fetch(request, 1, "memes", vec![]);
    assert_eq!(
        reply,
        FetchReply::Partial {
            notice: String::from("https://discord.com/channels/1/660353693283123231 only has 0 posts."),
        }
    );
    assert_eq!(partial_result_notice(1, 2, 3), "https://discord.com/channels/1/2 only has 3 posts.");
}

#[test]
fn the_top_ten_of_twelve_are_the_ten_highest() {
    let request = validate_request(Some(10), None, ChannelOption::Showcase).unwrap();
    let reply = fetch(request, GUILD, "showcase", twelve());
    match reply {
        FetchReply::Ranked { title, cards, partitions } => {
            assert_eq!(title, "Top 10 posts in #showcase");
            let scores: Vec<isize> = cards.iter().map(|c| c.score).collect();
            assert_eq!(scores, vec![30, 18, 12, 8, 7, 6, 5, 4, 2, 1]);
            let authors: Vec<&str> = cards.iter().map(|c| c.author.as_str()).collect();
            assert_eq!(
                authors,
                vec![
                    "user12", "user8", "user4", "user2", "user6", "user10", "user1", "user11",
                    "user9", "user7",
                ]
            );
            assert_eq!(partitions, 1);
            assert_eq!(batch(&cards, 0).len(), 10);
            assert_eq!(batch(&cards, 0), &cards[..]);
            assert_eq!(batch(&cards, 1).len(), 0);
            assert_eq!(fallback_slice(&cards, 0, 10).len(), 10);
            assert_eq!(fallback_slice(&cards, 10, 20).len(), 0);
        },
        FetchReply::Partial { notice } => panic!("{}", notice),
    }
}

#[test]
fn the_lowest_two_of_twelve_are_the_two_lowest() {
    let request = validate_request(None, Some(2), ChannelOption::Books).unwrap();
    let reply = fetch(request, GUILD, "books", twelve());
    match reply {
        FetchReply::Ranked { title, cards, partitions } => {
            assert_eq!(title, "Lowest 2 posts in #books");
            let scores: Vec<isize> = cards.iter().map(|c| c.score).collect();
            assert_eq!(scores, vec![-4, 0]);
            assert_eq!(partitions, 1);
        },
        FetchReply::Partial { notice } => panic!("{}", notice),
    }
}

#[test]
fn all_twelve_take_two_messages() {
    let request = validate_request(Some(12), None, ChannelOption::Showcase).unwrap();
    let reply = fetch(request, GUILD, "showcase", twelve());
    match reply {
        FetchReply::Ranked { cards, partitions, .. } => {
            assert_eq!(cards.len(), 12);
            assert_eq!(partitions, 2);
            assert_eq!(batch(&cards, 0), &cards[0..10]);
            assert_eq!(batch(&cards, 1), &cards[10..12]);
            assert_eq!(batch(&cards, 2).len(), 0);
        },
        FetchReply::Partial { notice } => panic!("{}", notice),
    }
}

#[test]
fn the_heading_names_the_end_the_number_and_the_channel() {
    assert_eq!(leaderboard_title(Direction::Top, 5, "wallpapers"), "Top 5 posts in #wallpapers");
    assert_eq!(leaderboard_title(Direction::Lowest, 12, "memes"), "Lowest 12 posts in #memes");
}

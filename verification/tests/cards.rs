use showcase_curator::cards::{
    avatar_url, batch, channel_url, describe, fallback_slice, make_card, make_cards, message_url,
    reply_partitions, Card,
};
use showcase_curator::model::{Attachment, Author, Embed, Emoji, Message, MessageReaction};

const GUILD: u64 = 647981638348832790;
const SHOWCASE: u64 = 677869233803100171;

fn upvotes(count: u64) -> MessageReaction {
    MessageReaction {
        emoji: Emoji::Custom { id: 1343553189508681728, name: Some(String::from("upvote")) },
        count,
    }
}

fn downvotes(count: u64) -> MessageReaction {
    MessageReaction {
        emoji: Emoji::Custom { id: 1343558658872709141, name: Some(String::from("downvote")) },
        count,
    }
}

fn post(id: u64, up: u64, down: u64) -> Message {
    Message {
        id,
        channel_id: SHOWCASE,
        guild_id: Some(GUILD),
        author: Author {
            id: 1000 + id,
            name: format!("user{}", id),
            global_name: None,
            avatar: Some(String::from("abc")),
        },
        content: format!("post {}", id),
        attachments: vec![],
        embeds: vec![],
        reactions: vec![upvotes(up), downvotes(down)],
        timestamp: 1_700_000_000 + id as i64,
    }
}

#[test]
fn reply_partitions_rounds_up() {
    assert_eq!(reply_partitions(0), 0);
    assert_eq!(reply_partitions(1), 1);
    assert_eq!(reply_partitions(9), 1);
    assert_eq!(reply_partitions(10), 1);
    assert_eq!(reply_partitions(11), 2);
    assert_eq!(reply_partitions(20), 2);
    assert_eq!(reply_partitions(21), 3);
    assert_eq!(reply_partitions(usize::MAX), usize::MAX / 10 + 1);
}

#[test]
fn fallback_slice_stops_at_the_last_item() {
    let items = [10, 11, 12, 13, 14];
    assert_eq!(fallback_slice(&items, 1, 3), &[11, 12]);
    assert_eq!(fallback_slice(&items, 0, 5), &[10, 11, 12, 13, 14]);
    assert_eq!(fallback_slice(&items, 3, 99), &[13, 14]);
    assert_eq!(fallback_slice(&items, 3, 5), &[13, 14]);
    assert_eq!(fallback_slice(&items, 5, 9), &[] as &[i32]);
    assert_eq!(fallback_slice(&items, 7, 9), &[] as &[i32]);
    assert_eq!(fallback_slice(&items, 2, 2), &[] as &[i32]);
    assert_eq!(fallback_slice(&items, 9, 7), &[] as &[i32]);
    assert_eq!(fallback_slice(&items, 5, 0), &[] as &[i32]);
    assert_eq!(fallback_slice(&[] as &[i32], 0, 10), &[] as &[i32]);
}

#[test]
fn batch_takes_ten_at_a_time() {
    let items: Vec<u32> = (0..25).collect();
    assert_eq!(batch(&items, 0), &items[0..10]);
    assert_eq!(batch(&items, 1), &items[10..20]);
    assert_eq!(batch(&items, 2), &items[20..25]);
    assert_eq!(batch(&items, 3), &[] as &[u32]);
    assert_eq!(batch(&items, usize::MAX), &[] as &[u32]);
    assert_eq!(batch(&items, usize::MAX / 10), &[] as &[u32]);
}

#[test]
fn links_name_the_community_the_channel_and_the_message() {
    assert_eq!(channel_url(7, 8), "https://discord.com/channels/7/8");
    assert_eq!(message_url(Some(7), 8, 9), "https://discord.com/channels/7/8/9");
    assert_eq!(message_url(None, 8, 9), "https://discord.com/channels/@me/8/9");
    assert_eq!(
        message_url(Some(GUILD), SHOWCASE, 1370271088151367741),
        "https://discord.com/channels/647981638348832790/677869233803100171/1370271088151367741"
    );
}

#[test]
fn a_card_shows_the_post() {
    let mut m = post(44, 9, 2);
    m.author.global_name = Some(String::from("Dana"));
    m.content = String::from("my new wallpaper");
    m.embeds = vec![
        Embed { url: Some(String::from("https://e.example/1")), image: Some(String::from("https://e.example/1.png")) },
        Embed { url: None, image: None },
        Embed { url: None, image: Some(String::from("https://e.example/3.png")) },
    ];
    m.attachments = vec![
        Attachment { url: String::from("https://a.example/1.png") },
        Attachment { url: String::from("https://a.example/2.png") },
    ];
    assert_eq!(
        make_card(&m),
        Card {
            author: String::from("Dana"),
            thumbnail: Some(String::from("https://cdn.discordapp.com/avatars/1044/abc.webp")),
            title: String::from("my new wallpaper"),
            description: String::from(
                "🪶 author •• Dana\n💙 likes ••• 7\n🔗 link •••• https://discord.com/channels/647981638348832790/677869233803100171/44"
            ),
            timestamp: 1_700_000_044,
            score: 7,
            link: String::from("https://discord.com/channels/647981638348832790/677869233803100171/44"),
            images: vec![
                String::from("https://e.example/1.png"),
                String::from("https://e.example/3.png"),
                String::from("https://a.example/1.png"),
                String::from("https://a.example/2.png"),
            ],
        }
    );
}

#[test]
fn a_card_falls_back_to_the_account_name_and_the_private_link() {
    let mut m = post(5, 0, 3);
    m.guild_id = None;
    m.author.avatar = None;
    m.content = "z".repeat(400);
    let card = make_card(&m);
    assert_eq!(card.author, "user5");
    assert_eq!(card.thumbnail, None);
    assert_eq!(
        card.description,
        "🪶 author •• user5\n💙 likes ••• -3\n🔗 link •••• https://discord.com/channels/@me/677869233803100171/5"
    );
    assert_eq!(card.title, format!("{}...", "z".repeat(253)));
    assert_eq!(card.score, -3);
    assert_eq!(card.link, "https://discord.com/channels/@me/677869233803100171/5");
    assert_eq!(card.images, Vec::<String>::new());
}

#[test]
fn make_cards_lays_out_the_first_posts_only() {
    let posts = vec![post(1, 3, 0), post(2, 2, 0), post(3, 1, 0)];
    let cards = make_cards(&posts, 2);
    assert_eq!(cards, vec![make_card(&posts[0]), make_card(&posts[1])]);
    assert_eq!(make_cards(&posts, 0), vec![]);
    assert_eq!(make_cards(&posts, 9).len(), 3);
}

#[test]
fn the_text_of_a_card_names_author_score_and_link() {
    assert_eq!(describe("ann", 12, "L"), "🪶 author •• ann\n💙 likes ••• 12\n🔗 link •••• L");
    assert_eq!(describe("", 0, ""), "🪶 author •• \n💙 likes ••• 0\n🔗 link •••• ");
    assert_eq!(
        describe("x", isize::MIN, "y"),
        format!("🪶 author •• x\n💙 likes ••• {}\n🔗 link •••• y", isize::MIN)
    );
    assert_eq!(avatar_url(7, "h4sh"), "https://cdn.discordapp.com/avatars/7/h4sh.webp");
}

//! The events that the transport delivers, as plain values, and the
//! mathematical view of each.

use vstd::prelude::*;

verus! {

/// The view of a text that may be absent.
pub open spec fn text_view(text: Option<String>) -> Option<Seq<char>> {
    match text {
        Some(t) => Some(t@),
        None => None,
    }
}

/// Which emoji a reaction shows.
#[derive(Clone, Debug, PartialEq, Eq)]
pub enum Emoji {
    /// An emoji of the community's own, known by its id; the name is decoration.
    Custom { id: u64, name: Option<String> },
    /// A glyph of the standard set.
    Unicode(String),
}

/// An emoji as plain text and numbers.
pub enum EmojiView {
    Custom { id: u64, name: Option<Seq<char>> },
    Unicode(Seq<char>),
}

impl View for Emoji {
    type V = EmojiView;

    open spec fn view(&self) -> EmojiView {
        match *self {
            Emoji::Custom { id, name } => EmojiView::Custom { id, name: text_view(name) },
            Emoji::Unicode(glyph) => EmojiView::Unicode(glyph@),
        }
    }
}

/// How often one emoji was given to a message.
#[derive(Clone, Debug, PartialEq, Eq)]
pub struct MessageReaction {
    pub emoji: Emoji,
    pub count: u64,
}

/// The count of one emoji, with its emoji as plain text and numbers.
pub struct MessageReactionView {
    pub emoji: EmojiView,
    pub count: nat,
}

impl View for MessageReaction {
    type V = MessageReactionView;

    open spec fn view(&self) -> MessageReactionView {
        MessageReactionView { emoji: self.emoji@, count: self.count as nat }
    }
}

/// A file that hangs on a message.
#[derive(Clone, Debug, PartialEq, Eq)]
pub struct Attachment {
    pub url: String,
}

impl View for Attachment {
    type V = Seq<char>;

    open spec fn view(&self) -> Seq<char> {
        self.url@
    }
}

/// A rich block that the platform rendered below a message.
#[derive(Clone, Debug, PartialEq, Eq)]
pub struct Embed {
    /// Where the block points to.
    pub url: Option<String>,
    /// The picture it shows.
    pub image: Option<String>,
}

/// A rich block as plain text.
pub struct EmbedView {
    pub url: Option<Seq<char>>,
    pub image: Option<Seq<char>>,
}

impl View for Embed {
    type V = EmbedView;

    open spec fn view(&self) -> EmbedView {
        EmbedView { url: text_view(self.url), image: text_view(self.image) }
    }
}

/// Who wrote a message.
#[derive(Clone, Debug, PartialEq, Eq)]
pub struct Author {
    pub id: u64,
    /// The account's name.
    pub name: String,
    /// The name the author chose to be shown under.
    pub global_name: Option<String>,
    /// The hash of the author's picture.
    pub avatar: Option<String>,
}

/// An author as plain text and numbers.
pub struct AuthorView {
    pub id: u64,
    pub name: Seq<char>,
    pub global_name: Option<Seq<char>>,
    pub avatar: Option<Seq<char>>,
}

impl View for Author {
    type V = AuthorView;

    open spec fn view(&self) -> AuthorView {
        AuthorView {
            id: self.id,
            name: self.name@,
            global_name: text_view(self.global_name),
            avatar: text_view(self.avatar),
        }
    }
}

impl AuthorView {
    /// The name an author is shown under: the chosen one where there is one.
    pub open spec fn display_name(self) -> Seq<char> {
        match self.global_name {
            Some(name) => name,
            None => self.name,
        }
    }
}

/// A message as it stood when the transport handed it over.
#[derive(Clone, Debug, PartialEq, Eq)]
pub struct Message {
    pub id: u64,
    pub channel_id: u64,
    /// The community it was written in; none for a private conversation.
    pub guild_id: Option<u64>,
    pub author: Author,
    pub content: String,
    pub attachments: Vec<Attachment>,
    pub embeds: Vec<Embed>,
    pub reactions: Vec<MessageReaction>,
    /// When it was written, in seconds since the epoch.
    pub timestamp: i64,
}

/// A message as plain text, numbers and sequences: what the rules speak of.
pub struct MessageView {
    pub id: u64,
    pub channel_id: u64,
    pub guild_id: Option<u64>,
    pub author: AuthorView,
    pub content: Seq<char>,
    pub attachments: Seq<Seq<char>>,
    pub embeds: Seq<EmbedView>,
    pub reactions: Seq<MessageReactionView>,
    pub timestamp: i64,
}

impl View for Message {
    type V = MessageView;

    open spec fn view(&self) -> MessageView {
        MessageView {
            id: self.id,
            channel_id: self.channel_id,
            guild_id: self.guild_id,
            author: self.author@,
            content: self.content@,
            attachments: self.attachments@.map_values(|a: Attachment| a@),
            embeds: self.embeds@.map_values(|e: Embed| e@),
            reactions: self.reactions@.map_values(|r: MessageReaction| r@),
            timestamp: self.timestamp,
        }
    }
}

/// One user's reaction to a message, as the transport reports it.
#[derive(Clone, Debug, PartialEq, Eq)]
pub struct Reaction {
    /// Who reacted.
    pub user_id: u64,
    pub emoji: Emoji,
    pub message_id: u64,
    pub channel_id: u64,
}

/// A reaction as plain text and numbers.
pub struct ReactionView {
    pub user_id: u64,
    pub emoji: EmojiView,
    pub message_id: u64,
    pub channel_id: u64,
}

impl View for Reaction {
    type V = ReactionView;

    open spec fn view(&self) -> ReactionView {
        ReactionView {
            user_id: self.user_id,
            emoji: self.emoji@,
            message_id: self.message_id,
            channel_id: self.channel_id,
        }
    }
}

/// What the transport delivers.
#[derive(Clone, Debug, PartialEq, Eq)]
pub enum Event {
    Message(Message),
    Reaction(Reaction),
}

/// An event as plain text, numbers and sequences.
pub enum EventView {
    Message(MessageView),
    Reaction(ReactionView),
}

impl View for Event {
    type V = EventView;

    open spec fn view(&self) -> EventView {
        match *self {
            Event::Message(message) => EventView::Message(message@),
            Event::Reaction(reaction) => EventView::Reaction(reaction@),
        }
    }
}

} // verus!

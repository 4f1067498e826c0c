//! The ranking of a channel's posts: which messages of the history are
//! ranked, the key that puts them in order, and the order itself.

use rayon::slice::ParallelSliceMut;
use vstd::prelude::*;
use crate::model::{
    Emoji, EmojiView, Message, MessageReaction, MessageReactionView, MessageView,
};
use crate::text::str_eq;
use crate::votes::{
    downvotes, gain, get_post_votes, is_fallback_glyph, loss, post_votes_fit, score_fits,
    upvotes, vote_score, DOWNVOTE_ID, DOWNVOTE_NAME, HEART, LAUGH, UPVOTE_ID, UPVOTE_NAME,
};

verus! {

/// From which end of the ranking the posts are taken.
#[derive(Clone, Copy, Debug, PartialEq, Eq, Structural)]
pub enum Direction {
    /// The posts with the highest scores, the highest first.
    Top,
    /// The posts with the lowest scores, the lowest first.
    Lowest,
}

impl Direction {
    /// What a score is multiplied with to give the key by which the posts
    /// are put in rising order.
    pub open spec fn spec_coefficient(self) -> int {
        match self {
            Direction::Top => -1,
            Direction::Lowest => 1,
        }
    }

    /// What a score is multiplied with to give the key by which the posts
    /// are put in rising order.
    pub fn coefficient(self) -> (c: isize)
        ensures
            c == self.spec_coefficient(),
    {
        match self {
            Direction::Top => -1,
            Direction::Lowest => 1,
        }
    }
}

/// A reaction that marks a message as a post that was put to the vote: one
/// of the community's two vote emoji, the one in favour or the one against,
/// known by its id or by its name, or one of the fallback glyphs.
pub open spec fn is_vote_reaction(r: MessageReactionView) -> bool {
    match r.emoji {
        EmojiView::Custom { id, name } => {
            ||| id == UPVOTE_ID
            ||| id == DOWNVOTE_ID
            ||| name == Some(UPVOTE_NAME@)
            ||| name == Some(DOWNVOTE_NAME@)
        },
        EmojiView::Unicode(glyph) => is_fallback_glyph(glyph),
    }
}

/// Whatever counts in the score of a message, for it or against it, marks
/// the message as a post that was put to the vote.
pub proof fn lemma_what_counts_is_a_vote(r: MessageReactionView)
    ensures
        gain(r) > 0 || loss(r) > 0 ==> is_vote_reaction(r),
{
}

/// A message that is not ranked has no votes: its score is 0. So every
/// message with a score other than 0, the lowest as well as the highest,
/// is ranked.
pub proof fn lemma_unranked_scores_nothing(m: MessageView)
    requires
        !is_ranked_post(m),
    ensures
        vote_score(m.reactions) == 0,
        score_fits(m),
{
    lemma_no_votes_no_score(m.reactions);
}

/// Reactions among which there is no vote bring nothing.
proof fn lemma_no_votes_no_score(reactions: Seq<MessageReactionView>)
    requires
        forall|i: int| 0 <= i < reactions.len() ==> !is_vote_reaction(#[trigger] reactions[i]),
    ensures
        upvotes(reactions) == 0,
        downvotes(reactions) == 0,
    decreases reactions.len(),
{
    if reactions.len() > 0 {
        let front = reactions.drop_last();
        assert forall|i: int| 0 <= i < front.len() implies !is_vote_reaction(
            #[trigger] front[i],
        ) by {
            assert(front[i] == reactions[i]);
        }
        lemma_no_votes_no_score(front);
        assert(!is_vote_reaction(reactions[reactions.len() - 1]));
    }
}

/// A message is ranked where at least one of its reactions marks it as a
/// post that was put to the vote. This is asked of messages long after they
/// came, and goes by what became of a message, not by what it looked like
/// when it came.
pub open spec fn is_ranked_post(m: MessageView) -> bool {
    exists|i: int| 0 <= i < m.reactions.len() && is_vote_reaction(#[trigger] m.reactions[i])
}

/// The key by which the posts are put in rising order.
pub open spec fn key_of(direction: Direction, m: MessageView) -> int {
    direction.spec_coefficient() * vote_score(m.reactions)
}

/// The messages of a history that are ranked, in the order of the history.
pub open spec fn ranked_posts(history: Seq<Message>) -> Seq<Message> {
    history.filter(|m: Message| is_ranked_post(m@))
}

/// The messages among `posts` whose key is `key`, in their order.
pub open spec fn with_key(posts: Seq<Message>, direction: Direction, key: int) -> Seq<Message> {
    posts.filter(|m: Message| key_of(direction, m@) == key)
}

/// `posts` is `pool` put in rising order of the key: it holds the same
/// messages, no key stands before a smaller one, and messages with the same
/// key stand in the order that they have in `pool`.
pub open spec fn is_ranking(posts: Seq<Message>, pool: Seq<Message>, direction: Direction) -> bool {
    &&& posts.len() == pool.len()
    &&& forall|i: int, j: int|
        0 <= i <= j < posts.len() ==> key_of(direction, (#[trigger] posts[i])@) <= key_of(
            direction,
            (#[trigger] posts[j])@,
        )
    &&& forall|key: int| #[trigger]
        with_key(posts, direction, key) == with_key(pool, direction, key)
}

/// The ranking of a pool. Every pool has one, and no second one.
pub open spec fn ranking_of(pool: Seq<Message>, direction: Direction) -> Seq<Message> {
    choose|posts: Seq<Message>| is_ranking(posts, pool, direction)
}

/// A sequence in rising order of the key with one more message, put behind
/// all that do not have a greater key.
spec fn placed(posts: Seq<Message>, m: Message, direction: Direction) -> Seq<Message>
    decreases posts.len(),
{
    if posts.len() == 0 || key_of(direction, posts.last()@) <= key_of(direction, m@) {
        posts.push(m)
    } else {
        placed(posts.drop_last(), m, direction).push(posts.last())
    }
}

/// A pool with its messages placed one after the other.
spec fn placed_all(pool: Seq<Message>, direction: Direction) -> Seq<Message>
    decreases pool.len(),
{
    if pool.len() == 0 {
        pool
    } else {
        placed(placed_all(pool.drop_last(), direction), pool.last(), direction)
    }
}

/// Placing a message keeps the order, and changes nothing among the
/// messages of a key but that the message stands last among those of its
/// own.
proof fn lemma_placed(posts: Seq<Message>, m: Message, direction: Direction)
    requires
        forall|i: int, j: int|
            0 <= i <= j < posts.len() ==> key_of(direction, (#[trigger] posts[i])@) <= key_of(
                direction,
                (#[trigger] posts[j])@,
            ),
    ensures
        placed(posts, m, direction).len() == posts.len() + 1,
        forall|i: int, j: int|
            0 <= i <= j < placed(posts, m, direction).len() ==> key_of(
                direction,
                (#[trigger] placed(posts, m, direction)[i])@,
            ) <= key_of(direction, (#[trigger] placed(posts, m, direction)[j])@),
        forall|i: int|
            0 <= i < placed(posts, m, direction).len() ==> (#[trigger] placed(
                posts,
                m,
                direction,
            )[i]) == m || posts.contains(placed(posts, m, direction)[i]),
        forall|key: int| #[trigger]
            with_key(placed(posts, m, direction), direction, key) == if key == key_of(
                direction,
                m@,
            ) {
                with_key(posts, direction, key).push(m)
            } else {
                with_key(posts, direction, key)
            },
    decreases posts.len(),
{
    reveal(Seq::filter);
    let out = placed(posts, m, direction);
    if posts.len() == 0 || key_of(direction, posts.last()@) <= key_of(direction, m@) {
        assert(out.drop_last() =~= posts);
        assert forall|i: int| 0 <= i < out.len() implies (#[trigger] out[i]) == m
            || posts.contains(out[i]) by {
            if i < posts.len() {
                assert(out[i] == posts[i]);
            }
        }
        assert forall|i: int, j: int| 0 <= i <= j < out.len() implies key_of(
            direction,
            (#[trigger] out[i])@,
        ) <= key_of(direction, (#[trigger] out[j])@) by {
            if j < posts.len() {
                assert(out[i] == posts[i] && out[j] == posts[j]);
            } else if i < posts.len() {
                assert(out[i] == posts[i]);
                assert(key_of(direction, posts[i]@) <= key_of(direction, posts[posts.len() - 1]@));
            }
        }
    } else {
        let front = posts.drop_last();
        let last = posts.last();
        assert forall|i: int, j: int| 0 <= i <= j < front.len() implies key_of(
            direction,
            (#[trigger] front[i])@,
        ) <= key_of(direction, (#[trigger] front[j])@) by {
            assert(front[i] == posts[i] && front[j] == posts[j]);
        }
        lemma_placed(front, m, direction);
        let inner = placed(front, m, direction);
        assert(out.drop_last() =~= inner);
        assert(out.last() == last);
        assert forall|i: int| 0 <= i < out.len() implies (#[trigger] out[i]) == m
            || posts.contains(out[i]) by {
            if i < inner.len() {
                assert(out[i] == inner[i]);
                if inner[i] != m {
                    let k = choose|k: int| 0 <= k < front.len() && front[k] == inner[i];
                    assert(posts[k] == inner[i]);
                }
            } else {
                assert(posts[posts.len() - 1] == out[i]);
            }
        }
        assert forall|i: int, j: int| 0 <= i <= j < out.len() implies key_of(
            direction,
            (#[trigger] out[i])@,
        ) <= key_of(direction, (#[trigger] out[j])@) by {
            if j < inner.len() {
                assert(out[i] == inner[i] && out[j] == inner[j]);
            } else if i < inner.len() {
                assert(out[i] == inner[i]);
                if inner[i] != m {
                    let k = choose|k: int| 0 <= k < front.len() && front[k] == inner[i];
                    assert(posts[k] == inner[i]);
                    assert(key_of(direction, posts[k]@) <= key_of(
                        direction,
                        posts[posts.len() - 1]@,
                    ));
                }
            }
        }
        assert forall|key: int| #[trigger]
            with_key(out, direction, key) == if key == key_of(direction, m@) {
                with_key(posts, direction, key).push(m)
            } else {
                with_key(posts, direction, key)
            } by {
            assert(with_key(inner, direction, key) == if key == key_of(direction, m@) {
                with_key(front, direction, key).push(m)
            } else {
                with_key(front, direction, key)
            });
        }
    }
}

/// Every pool has a ranking.
pub proof fn lemma_every_pool_has_a_ranking(pool: Seq<Message>, direction: Direction)
    ensures
        is_ranking(ranking_of(pool, direction), pool, direction),
{
    lemma_placed_all(pool, direction);
}

/// Placing the messages of a pool one after the other gives its ranking.
proof fn lemma_placed_all(pool: Seq<Message>, direction: Direction)
    ensures
        is_ranking(placed_all(pool, direction), pool, direction),
    decreases pool.len(),
{
    reveal(Seq::filter);
    if pool.len() > 0 {
        let front = pool.drop_last();
        lemma_placed_all(front, direction);
        lemma_placed(placed_all(front, direction), pool.last(), direction);
        assert forall|key: int| #[trigger]
            with_key(placed_all(pool, direction), direction, key) == with_key(
                pool,
                direction,
                key,
            ) by {
            assert(with_key(placed_all(front, direction), direction, key) == with_key(
                front,
                direction,
                key,
            ));
        }
    }
}

/// Whether a reaction marks a message as a post that was put to the vote.
fn marks_post(r: &MessageReaction) -> (marks: bool)
    ensures
        marks == is_vote_reaction(r@),
{
    match &r.emoji {
        Emoji::Custom { id, name } => {
            *id == UPVOTE_ID || *id == DOWNVOTE_ID || match name {
                Some(name) => str_eq(name.as_str(), UPVOTE_NAME) || str_eq(
                    name.as_str(),
                    DOWNVOTE_NAME,
                ),
                None => false,
            }
        },
        Emoji::Unicode(glyph) => str_eq(glyph.as_str(), HEART) || str_eq(glyph.as_str(), LAUGH),
    }
}

/// Whether a message is ranked.
pub fn has_vote_reaction(m: &Message) -> (ranked: bool)
    ensures
        ranked == is_ranked_post(m@),
{
    let mut i: usize = 0;
    while i < m.reactions.len()
        invariant
            i <= m.reactions@.len(),
            forall|j: int| 0 <= j < i ==> !is_vote_reaction(#[trigger] m@.reactions[j]),
        decreases m.reactions@.len() - i,
    {
        if marks_post(&m.reactions[i]) {
            assert(is_vote_reaction(m@.reactions[i as int]));
            return true;
        }
        i += 1;
    }
    false
}

/// The key by which a post is put in its place.
pub fn sort_key(direction: Direction, m: &Message) -> (key: i128)
    requires
        score_fits(m@),
    ensures
        key == key_of(direction, m@),
{
    let coefficient = direction.coefficient();
    let votes = get_post_votes(m);
    assert(-isize::MAX - 1 <= coefficient * votes <= isize::MAX + 1) by (nonlinear_arith)
        requires
            coefficient == 1 || coefficient == -1,
            isize::MIN <= votes <= isize::MAX,
    ;
    coefficient as i128 * votes as i128
}

/// `par_sort_by_key` of rayon, on the posts with `sort_key` as the key: a
/// stable sort. It leaves the same messages, in rising order of the key,
/// those with the same key in the order they had. The scores have to fit,
/// since the key of each post is computed from its score.
#[verifier::external_body]
fn par_sort_by_key(posts: &mut Vec<Message>, direction: Direction)
    requires
        forall|i: int| 0 <= i < old(posts)@.len() ==> score_fits((#[trigger] old(posts)@[i])@),
    ensures
        is_ranking(final(posts)@, old(posts)@, direction),
{
    posts.par_sort_by_key(|m| sort_key(direction, m));
}

/// The score of every ranked message of a history can be held in an `isize`.
pub open spec fn scores_fit(history: Seq<Message>) -> bool {
    forall|i: int|
        0 <= i < history.len() && is_ranked_post((#[trigger] history[i])@) ==> score_fits(
            history[i]@,
        )
}

/// The ranked posts of a history, in rising order of the key.
pub fn capture_channel_posts(history: Vec<Message>, direction: Direction) -> (posts: Vec<Message>)
    requires
        scores_fit(history@),
    ensures
        is_ranking(posts@, ranked_posts(history@), direction),
        posts@ == ranking_of(ranked_posts(history@), direction),
{
    let ghost all = history@;
    let ghost keep = |m: Message| is_ranked_post(m@);
    let mut posts: Vec<Message> = Vec::new();
    for m in it: history
        invariant
            it.seq() == all,
            keep == |m: Message| is_ranked_post(m@),
            posts@ == all.take(it.index() as int).filter(keep),
            scores_fit(all),
            forall|i: int| 0 <= i < posts@.len() ==> score_fits((#[trigger] posts@[i])@),
    {
        proof {
            let seen = all.take(it.index() as int);
            assert(all.take(it.index() + 1) =~= seen.push(m));
            seen.lemma_filter_push(m, keep);
            assert(m == all[it.index() as int]);
        }
        if has_vote_reaction(&m) {
            posts.push(m);
        }
    }
    assert(all.take(all.len() as int) =~= all);
    par_sort_by_key(&mut posts, direction);
    proof {
        let pool = ranked_posts(history@);
        lemma_ranking_is_determined(posts@, ranking_of(pool, direction), pool, direction);
    }
    posts
}

/// Whether the score of every ranked message of a history can be held in an
/// `isize`.
pub fn history_fits(history: &Vec<Message>) -> (fits: bool)
    ensures
        fits == scores_fit(history@),
{
    let mut i: usize = 0;
    while i < history.len()
        invariant
            i <= history@.len(),
            forall|k: int|
                0 <= k < i && is_ranked_post((#[trigger] history@[k])@) ==> score_fits(
                    history@[k]@,
                ),
        decreases history@.len() - i,
    {
        if has_vote_reaction(&history[i]) && !post_votes_fit(&history[i]) {
            return false;
        }
        i += 1;
    }
    true
}

/// In a ranking the posts stand by their scores, the highest first where the
/// top is asked for and the lowest first otherwise. So the first so many of
/// them score no worse, in that sense, than any that follow; and each of
/// them is a message of the pool.
pub proof fn lemma_ranking_is_by_score(
    posts: Seq<Message>,
    pool: Seq<Message>,
    direction: Direction,
)
    requires
        is_ranking(posts, pool, direction),
    ensures
        forall|i: int, j: int|
            0 <= i <= j < posts.len() ==> match direction {
                Direction::Top => vote_score((#[trigger] posts[i])@.reactions) >= vote_score(
                    (#[trigger] posts[j])@.reactions,
                ),
                Direction::Lowest => vote_score(posts[i]@.reactions) <= vote_score(
                    posts[j]@.reactions,
                ),
            },
        forall|i: int| 0 <= i < posts.len() ==> pool.contains(#[trigger] posts[i]),
        forall|i: int| 0 <= i < pool.len() ==> posts.contains(#[trigger] pool[i]),
{
    assert forall|i: int, j: int| 0 <= i <= j < posts.len() implies match direction {
        Direction::Top => vote_score((#[trigger] posts[i])@.reactions) >= vote_score(
            (#[trigger] posts[j])@.reactions,
        ),
        Direction::Lowest => vote_score(posts[i]@.reactions) <= vote_score(posts[j]@.reactions),
    } by {
        assert(key_of(direction, posts[i]@) <= key_of(direction, posts[j]@));
    }
    assert forall|i: int| 0 <= i < posts.len() implies pool.contains(#[trigger] posts[i]) by {
        lemma_same_key_same_place(posts, pool, direction, i);
    }
    assert forall|i: int| 0 <= i < pool.len() implies posts.contains(#[trigger] pool[i]) by {
        lemma_same_key_same_place(pool, posts, direction, i);
    }
}

/// A pool has one ranking only: the order of the history settles the places
/// of posts with the same score, so that what is shown for a request does
/// not depend on how the ranking was found.
pub proof fn lemma_ranking_is_determined(
    a: Seq<Message>,
    b: Seq<Message>,
    pool: Seq<Message>,
    direction: Direction,
)
    requires
        is_ranking(a, pool, direction),
        is_ranking(b, pool, direction),
    ensures
        a == b,
{
    assert forall|key: int| #[trigger]
        with_key(a, direction, key) == with_key(b, direction, key) by {
        assert(with_key(a, direction, key) == with_key(pool, direction, key));
        assert(with_key(b, direction, key) == with_key(pool, direction, key));
    }
    lemma_same_keys_same_order(a, b, direction);
}

/// Two sequences in rising order of the key that hold the same messages
/// under each key, in the same order, are the same.
proof fn lemma_same_keys_same_order(a: Seq<Message>, b: Seq<Message>, direction: Direction)
    requires
        a.len() == b.len(),
        forall|i: int, j: int|
            0 <= i <= j < a.len() ==> key_of(direction, (#[trigger] a[i])@) <= key_of(
                direction,
                (#[trigger] a[j])@,
            ),
        forall|i: int, j: int|
            0 <= i <= j < b.len() ==> key_of(direction, (#[trigger] b[i])@) <= key_of(
                direction,
                (#[trigger] b[j])@,
            ),
        forall|key: int| #[trigger] with_key(a, direction, key) == with_key(b, direction, key),
    ensures
        a == b,
    decreases a.len(),
{
    if a.len() == 0 {
        assert(a =~= b);
    } else {
        reveal(Seq::filter);
        let top = key_of(direction, a.last()@);
        let other = key_of(direction, b.last()@);
        lemma_same_key_same_place(a, b, direction, a.len() - 1);
        lemma_same_key_same_place(b, a, direction, b.len() - 1);
        let i = choose|i: int| 0 <= i < b.len() && b[i] == a.last();
        let j = choose|j: int| 0 <= j < a.len() && a[j] == b.last();
        assert(key_of(direction, b[i]@) <= key_of(direction, b[b.len() - 1]@));
        assert(key_of(direction, a[j]@) <= key_of(direction, a[a.len() - 1]@));
        assert(top == other);
        assert(with_key(a, direction, top) == with_key(b, direction, top));
        assert(with_key(a, direction, top).last() == a.last());
        assert(with_key(b, direction, top).last() == b.last());
        let front_a = a.drop_last();
        let front_b = b.drop_last();
        assert forall|key: int| #[trigger]
            with_key(front_a, direction, key) == with_key(front_b, direction, key) by {
            assert(with_key(a, direction, key) == with_key(b, direction, key));
            if key == top {
                assert(with_key(front_a, direction, key) == with_key(a, direction, key).drop_last());
                assert(with_key(front_b, direction, key) == with_key(b, direction, key).drop_last());
            }
        }
        assert forall|i: int, j: int| 0 <= i <= j < front_a.len() implies key_of(
            direction,
            (#[trigger] front_a[i])@,
        ) <= key_of(direction, (#[trigger] front_a[j])@) by {
            assert(front_a[i] == a[i] && front_a[j] == a[j]);
        }
        assert forall|i: int, j: int| 0 <= i <= j < front_b.len() implies key_of(
            direction,
            (#[trigger] front_b[i])@,
        ) <= key_of(direction, (#[trigger] front_b[j])@) by {
            assert(front_b[i] == b[i] && front_b[j] == b[j]);
        }
        lemma_same_keys_same_order(front_a, front_b, direction);
        assert(a =~= front_a.push(a.last()));
        assert(b =~= front_b.push(b.last()));
    }
}

/// A message of one sequence is found in another that holds the same
/// messages under each key.
proof fn lemma_same_key_same_place(
    here: Seq<Message>,
    there: Seq<Message>,
    direction: Direction,
    i: int,
)
    requires
        0 <= i < here.len(),
        forall|key: int| #[trigger]
            with_key(here, direction, key) == with_key(there, direction, key),
    ensures
        there.contains(here[i]),
{
    let key = key_of(direction, here[i]@);
    let same = |m: Message| key_of(direction, m@) == key;
    assert(with_key(here, direction, key) == with_key(there, direction, key));
    here.lemma_filter_contains(same, i);
    there.lemma_filter_contains_rev(same, here[i]);
}

} // verus!

use vstd::prelude::*;
use crate::constants::VOTE_SCORE;
use crate::forum::{article_at, Forum, ForumError, VoteOutcome};
use crate::store::StoredArticle;

verus! {

/// Two different voters who have not yet voted on an article both have
/// their votes accepted, in whichever order they come, and together lift
/// its score by exactly two vote deltas.
pub proof fn lemma_distinct_voters_both_count(
    f0: Forum,
    f1: Forum,
    f2: Forum,
    article_id: u32,
    v1: u32,
    v2: u32,
    r1: VoteOutcome,
    r2: VoteOutcome,
)
    requires
        f0.wf(),
        v1 != v2,
        !f0.voters(article_id).contains(v1),
        !f0.voters(article_id).contains(v2),
        Forum::vote_step(f0, f1, article_id, v1, r1),
        Forum::vote_step(f1, f2, article_id, v2, r2),
    ensures
        r1 == VoteOutcome::Accepted,
        r2 == VoteOutcome::Accepted,
        f2.score(article_id) == f0.score(article_id) + 2 * VOTE_SCORE,
        f2.voters(article_id) == f0.voters(article_id).insert(v1).insert(v2),
{
    assert(f1.voters(article_id) == f0.voters(article_id).insert(v1));
    assert(f2.voters(article_id) == f1.voters(article_id).insert(v2));
    assert(f1.score(article_id) == f0.score(article_id) + VOTE_SCORE);
    assert(f2.score(article_id) == f1.score(article_id) + VOTE_SCORE);
}

/// After the first of a run of votes by one voter on one article, every
/// state has that voter recorded and the score one delta above the start.
proof fn lemma_repeated_vote_prefix(
    states: Seq<Forum>,
    outcomes: Seq<VoteOutcome>,
    article_id: u32,
    voter_id: u32,
    k: int,
)
    requires
        1 <= k <= outcomes.len(),
        states.len() == outcomes.len() + 1,
        !states[0].voters(article_id).contains(voter_id),
        forall|i: int|
            0 <= i < outcomes.len() ==> Forum::vote_step(
                states[i],
                states[i + 1],
                article_id,
                voter_id,
                #[trigger] outcomes[i],
            ),
    ensures
        outcomes[0] == VoteOutcome::Accepted,
        forall|i: int| 1 <= i < k ==> outcomes[i] == VoteOutcome::Duplicate,
        states[k].voters(article_id) == states[0].voters(article_id).insert(voter_id),
        states[k].score(article_id) == states[0].score(article_id) + VOTE_SCORE,
    decreases k,
{
    assert(Forum::vote_step(states[0], states[1], article_id, voter_id, outcomes[0]));
    if k > 1 {
        lemma_repeated_vote_prefix(states, outcomes, article_id, voter_id, k - 1);
        let j = k - 1;
        assert(Forum::vote_step(states[j], states[j + 1], article_id, voter_id, outcomes[j]));
        assert(states[j].voters(article_id).contains(voter_id));
        assert(states[j].voters(article_id).insert(voter_id) =~= states[j].voters(article_id));
    }
}

/// However many times one voter votes on one article who had not voted on
/// it before, exactly the first vote is accepted, every later one is a
/// duplicate, and the score rises by exactly one vote delta in all.
/// Calls that race are applied one at a time through `&mut Forum`, so this
/// covers them too.
pub proof fn lemma_repeated_vote_counts_once(
    states: Seq<Forum>,
    outcomes: Seq<VoteOutcome>,
    article_id: u32,
    voter_id: u32,
)
    requires
        outcomes.len() >= 1,
        states.len() == outcomes.len() + 1,
        states[0].wf(),
        !states[0].voters(article_id).contains(voter_id),
        forall|i: int|
            0 <= i < outcomes.len() ==> Forum::vote_step(
                states[i],
                states[i + 1],
                article_id,
                voter_id,
                #[trigger] outcomes[i],
            ),
    ensures
        outcomes[0] == VoteOutcome::Accepted,
        forall|i: int| 1 <= i < outcomes.len() ==> outcomes[i] == VoteOutcome::Duplicate,
        states.last().score(article_id) == states[0].score(article_id) + VOTE_SCORE,
        states.last().voters(article_id) == states[0].voters(article_id).insert(voter_id),
{
    lemma_repeated_vote_prefix(states, outcomes, article_id, voter_id, outcomes.len() as int);
}

/// Every identifier that `create_article` hands out is above every
/// identifier already in use, and a later creation, after any number of
/// operations in between, hands out a strictly greater one.
pub proof fn lemma_created_ids_increase(
    f0: Forum,
    f1: Forum,
    f2: Forum,
    f3: Forum,
    t1: String,
    c1: String,
    a1: u32,
    g1: Vec<String>,
    n1: u64,
    t2: String,
    c2: String,
    a2: u32,
    g2: Vec<String>,
    n2: u64,
    id1: u32,
    id2: u32,
)
    requires
        Forum::create_step(f0, f1, t1, c1, a1, g1, n1, Ok::<u32, ForumError>(id1)),
        f1.last_id() <= f2.last_id(),
        Forum::create_step(f2, f3, t2, c2, a2, g2, n2, Ok::<u32, ForumError>(id2)),
    ensures
        id1 > f0.last_id(),
        id1 == f1.last_id(),
        id1 < id2,
{
}

/// A vote changes no identifier, so creations around it keep increasing.
pub proof fn lemma_vote_keeps_ids(
    pre: Forum,
    post: Forum,
    article_id: u32,
    voter_id: u32,
    r: VoteOutcome,
)
    requires
        Forum::vote_step(pre, post, article_id, voter_id, r),
    ensures
        post.last_id() == pre.last_id(),
        post.articles() == pre.articles(),
{
}

/// Reading back a freshly created article gives exactly what was stored:
/// its title, content, author, tags and creation time.
pub proof fn lemma_get_after_create(
    pre: Forum,
    post: Forum,
    title: String,
    content: String,
    author_id: u32,
    tags: Vec<String>,
    now: u64,
    id: u32,
)
    requires
        pre.wf(),
        Forum::create_step(pre, post, title, content, author_id, tags, now, Ok::<u32, ForumError>(id)),
    ensures
        article_at(post.articles(), id) == Some(
            StoredArticle { title, content, author_id, tags, created_at: now },
        ),
{
    pre.lemma_last_id_counts_articles();
}

} // verus!

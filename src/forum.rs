use vstd::prelude::*;
use crate::constants::VOTE_SCORE;
use crate::hot_rank::HotRankIndex;
use crate::ledger::{VoteLedger, VoteRecord};
use crate::sequence::SequenceGenerator;
use crate::store::{ArticleStore, StoredArticle};

verus! {

/// What became of a vote.
#[derive(Clone, Copy, Debug, PartialEq, Eq, Structural)]
pub enum VoteOutcome {
    /// First vote of this voter on this article: the score went up.
    Accepted,
    /// The voter had already voted: nothing changed.
    Duplicate,
}

/// Why an operation was refused.
#[derive(Clone, Copy, Debug, PartialEq, Eq, Structural)]
pub enum ForumError {
    /// Every article identifier has been issued.
    IdsExhausted,
}

/// The voting and ranking core: identifiers, article contents, voter sets
/// and hot-list scores, kept consistent with one another.
pub struct Forum {
    ids: SequenceGenerator,
    store: ArticleStore,
    ledger: VoteLedger,
    rank: HotRankIndex,
}

/// The article stored under `id` in `articles`, if any.
pub open spec fn article_at(articles: Seq<StoredArticle>, id: u32) -> Option<StoredArticle> {
    if 1 <= id <= articles.len() {
        Some(articles[id - 1])
    } else {
        None
    }
}

impl Forum {
    /// The stored articles; the one with identifier `id` is at `id - 1`.
    pub closed spec fn articles(&self) -> Seq<StoredArticle> {
        self.store.articles()
    }

    /// The most recently issued article identifier, 0 before the first.
    pub closed spec fn last_id(&self) -> u32 {
        self.ids.last_issued()
    }

    /// The voters recorded for `article_id`.
    pub closed spec fn voters(&self, article_id: u32) -> Set<u32> {
        self.ledger.voters(article_id)
    }

    /// The hot-list score of `article_id`, 0 when it has none.
    pub closed spec fn score(&self, article_id: u32) -> int {
        self.rank.score(article_id)
    }

    /// Whether `article_id` has an entry on the hot list.
    pub closed spec fn ranked(&self, article_id: u32) -> bool {
        self.rank.scores().contains_key(article_id)
    }

    /// How many articles have an entry on the hot list.
    pub open spec fn ranked_count(&self) -> nat {
        Set::<u32>::new(|a: u32| self.ranked(a)).len()
    }

    /// Whether `a` comes before `b` on the hot list: the higher score first,
    /// and of two equal scores the lower article identifier first.
    pub open spec fn ranks_before(&self, a: u32, b: u32) -> bool {
        self.score(a) > self.score(b) || (self.score(a) == self.score(b) && a < b)
    }

    /// The creation-time baseline of `article_id`: its creation timestamp,
    /// or 0 when no article has that identifier.
    pub open spec fn baseline(&self, article_id: u32) -> int {
        match article_at(self.articles(), article_id) {
            Some(a) => a.created_at as int,
            None => 0,
        }
    }

    pub closed spec fn wf(&self) -> bool {
        &&& self.ledger.wf()
        &&& self.rank.wf()
        &&& self.ids.last_issued() == self.store.articles().len()
        &&& forall|a: u32|
            #[trigger] self.rank.score(a) == self.baseline(a) + VOTE_SCORE * self.ledger.voters(
                a,
            ).len()
    }

    /// In a valid state the last identifier is the number of articles.
    pub proof fn lemma_last_id_counts_articles(&self)
        requires
            self.wf(),
        ensures
            self.last_id() == self.articles().len(),
    {
    }

    /// A valid state's score is its baseline plus one vote delta per voter.
    pub proof fn lemma_score_decomposes(&self, article_id: u32)
        requires
            self.wf(),
        ensures
            self.voters(article_id).finite(),
            self.score(article_id) == self.baseline(article_id) + VOTE_SCORE * self.voters(
                article_id,
            ).len(),
    {
        self.ledger.lemma_voters_bounded(article_id);
    }

    /// The state after `cast_vote(article_id, voter_id)` returned `r` on `pre`.
    pub open spec fn vote_step(
        pre: Forum,
        post: Forum,
        article_id: u32,
        voter_id: u32,
        r: VoteOutcome,
    ) -> bool {
        &&& post.wf()
        &&& (r == VoteOutcome::Accepted) == !pre.voters(article_id).contains(voter_id)
        &&& post.articles() == pre.articles()
        &&& post.last_id() == pre.last_id()
        &&& forall|a: u32|
            #![trigger post.voters(a)]
            post.voters(a) == if a == article_id {
                pre.voters(a).insert(voter_id)
            } else {
                pre.voters(a)
            }
        &&& forall|a: u32|
            #![trigger post.score(a)]
            post.score(a) == if a == article_id && r == VoteOutcome::Accepted {
                pre.score(a) + VOTE_SCORE
            } else {
                pre.score(a)
            }
        &&& forall|a: u32|
            #![trigger post.ranked(a)]
            post.ranked(a) == (pre.ranked(a) || (a == article_id && r == VoteOutcome::Accepted))
    }

    /// The state after `create_article` returned `r` on `pre` with these
    /// arguments.
    pub open spec fn create_step(
        pre: Forum,
        post: Forum,
        title: String,
        content: String,
        author_id: u32,
        tags: Vec<String>,
        now: u64,
        r: Result<u32, ForumError>,
    ) -> bool {
        &&& post.wf()
        &&& pre.last_id() < u32::MAX ==> {
            &&& r == Ok::<u32, ForumError>((pre.last_id() + 1) as u32)
            &&& post.last_id() == pre.last_id() + 1
            &&& post.articles() == pre.articles().push(
                StoredArticle { title, content, author_id, tags, created_at: now },
            )
            &&& forall|a: u32| #![trigger post.voters(a)] post.voters(a) == pre.voters(a)
            &&& forall|a: u32|
                #![trigger post.score(a)]
                post.score(a) == if a == r->Ok_0 {
                    pre.score(a) + now
                } else {
                    pre.score(a)
                }
            &&& forall|a: u32|
                #![trigger post.ranked(a)]
                post.ranked(a) == (pre.ranked(a) || a == r->Ok_0)
        }
        &&& pre.last_id() == u32::MAX ==> r == Err::<u32, ForumError>(ForumError::IdsExhausted)
            && post == pre
    }

    pub fn new() -> (r: Self)
        ensures
            r.wf(),
            r.last_id() == 0,
            r.articles().len() == 0,
            forall|a: u32| #[trigger] r.voters(a) == Set::<u32>::empty(),
            forall|a: u32| #[trigger] r.score(a) == 0,
            forall|a: u32| !#[trigger] r.ranked(a),
    {
        let r = Forum {
            ids: SequenceGenerator::new(),
            store: ArticleStore::new(),
            ledger: VoteLedger::new(),
            rank: HotRankIndex::new(),
        };
        assert forall|a: u32| #[trigger] r.rank.score(a) == r.baseline(a)
            + VOTE_SCORE * r.ledger.voters(a).len() by {
            assert(r.ledger.voters(a) == Set::<u32>::empty());
        }
        r
    }

    /// Stores a new article under the next identifier and seeds its hot-list
    /// score with its creation time `now` (seconds since the epoch), in the
    /// same units as the vote delta.
    pub fn create_article(
        &mut self,
        title: String,
        content: String,
        author_id: u32,
        tags: Vec<String>,
        now: u64,
    ) -> (r: Result<u32, ForumError>)
        requires
            old(self).wf(),
        ensures
            Forum::create_step(*old(self), *final(self), title, content, author_id, tags, now, r),
    {
        let ghost pre = *self;
        let id = match self.ids.next() {
            None => {
                assert(*self == pre);
                return Err(ForumError::IdsExhausted);
            },
            Some(id) => id,
        };
        proof {
            self.ledger.lemma_voters_bounded(id);
            self.rank.lemma_score_range(id);
            assert(pre.rank.score(id) == pre.baseline(id) + VOTE_SCORE * pre.ledger.voters(id).len());
            assert(article_at(pre.articles(), id) is None);
            assert(VOTE_SCORE * self.ledger.voters(id).len() <= VOTE_SCORE * usize::MAX)
                by (nonlinear_arith)
                requires
                    self.ledger.voters(id).len() <= usize::MAX,
            ;
            assert(VOTE_SCORE == 432);
            assert(usize::MAX <= u64::MAX);
            assert(self.rank.score(id) == VOTE_SCORE * self.ledger.voters(id).len());
        }
        let article = StoredArticle { title, content, author_id, tags, created_at: now };
        let ghost stored = article;
        self.store.append(article);
        assert(self.articles()[id - 1] == stored);
        self.rank.increment(id, now as u128);
        proof {
            assert forall|a: u32| #[trigger] self.rank.score(a) == self.baseline(a)
                + VOTE_SCORE * self.ledger.voters(a).len() by {
                assert(pre.rank.score(a) == pre.baseline(a) + VOTE_SCORE * pre.ledger.voters(a).len());
                if a == id {
                    assert(article_at(self.articles(), a) == Some(stored));
                } else {
                    assert(article_at(self.articles(), a) == article_at(pre.articles(), a));
                }
            }
        }
        Ok(id)
    }

    /// The article with identifier `id`, or `None` when there is none.
    pub fn get_article(&self, id: u32) -> (r: Option<&StoredArticle>)
        requires
            self.wf(),
        ensures
            r is Some <==> article_at(self.articles(), id) is Some,
            r is Some ==> Some(*r->0) == article_at(self.articles(), id),
    {
        self.store.get(id)
    }

    /// Records the vote of `voter_id` on `article_id`. A first vote lifts the
    /// article's score by `VOTE_SCORE`; a repeated vote changes nothing.
    pub fn cast_vote(&mut self, article_id: u32, voter_id: u32) -> (r: VoteOutcome)
        requires
            old(self).wf(),
        ensures
            Forum::vote_step(*old(self), *final(self), article_id, voter_id, r),
    {
        let ghost pre = *self;
        proof {
            self.ledger.lemma_voters_bounded(article_id);
            assert(self.rank.score(article_id) == self.baseline(article_id) + VOTE_SCORE
                * self.ledger.voters(article_id).len());
            assert(VOTE_SCORE * self.ledger.voters(article_id).len() <= VOTE_SCORE * usize::MAX)
                by (nonlinear_arith)
                requires
                    self.ledger.voters(article_id).len() <= usize::MAX,
            ;
            assert(VOTE_SCORE == 432);
            assert(usize::MAX <= u64::MAX);
            assert(0 <= self.baseline(article_id) <= u64::MAX);
        }
        match self.ledger.record_vote(article_id, voter_id) {
            VoteRecord::AlreadyPresent => {
                assert forall|a: u32| #[trigger] self.rank.score(a) == self.baseline(a)
                    + VOTE_SCORE * self.ledger.voters(a).len() by {
                    assert(pre.rank.score(a) == pre.baseline(a) + VOTE_SCORE * pre.ledger.voters(a).len());
                    if a == article_id {
                        assert(self.ledger.voters(a) == pre.ledger.voters(a).insert(voter_id));
                        assert(pre.ledger.voters(a).insert(voter_id) =~= pre.ledger.voters(a));
                    }
                }
                VoteOutcome::Duplicate
            },
            VoteRecord::Added => {
                self.rank.increment(article_id, VOTE_SCORE as u128);
                proof {
                    assert forall|a: u32| #[trigger] self.rank.score(a) == self.baseline(a)
                        + VOTE_SCORE * self.ledger.voters(a).len() by {
                        assert(pre.rank.score(a) == pre.baseline(a) + VOTE_SCORE * pre.ledger.voters(a).len());
                        pre.ledger.lemma_voters_bounded(a);
                        if a == article_id {
                            assert(self.ledger.voters(a) == pre.ledger.voters(a).insert(voter_id));
                            assert(self.ledger.voters(a).len() == pre.ledger.voters(a).len() + 1);
                            assert(VOTE_SCORE * (pre.ledger.voters(a).len() + 1) == VOTE_SCORE
                                * pre.ledger.voters(a).len() + VOTE_SCORE) by (nonlinear_arith);
                        }
                    }
                }
                VoteOutcome::Accepted
            },
        }
    }

    /// The hot-list score of `article_id`, or `None` when it has no entry.
    pub fn score_of(&self, article_id: u32) -> (r: Option<u128>)
        requires
            self.wf(),
        ensures
            r is Some <==> self.ranked(article_id),
            r is Some ==> r->0 as int == self.score(article_id),
    {
        self.rank.score_of(article_id)
    }

    /// Whether `voter_id` has voted on `article_id`.
    pub fn has_voted(&self, article_id: u32, voter_id: u32) -> (r: bool)
        requires
            self.wf(),
        ensures
            r == self.voters(article_id).contains(voter_id),
    {
        self.ledger.has_voted(article_id, voter_id)
    }

    /// The `k` articles highest on the hot list, best first (all of them
    /// when fewer than `k` are ranked).
    pub fn top(&self, k: usize) -> (r: Vec<u32>)
        requires
            self.wf(),
        ensures
            r@.len() == if k < self.ranked_count() {
                k as nat
            } else {
                self.ranked_count()
            },
            forall|i: int| 0 <= i < r@.len() ==> self.ranked(#[trigger] r@[i]),
            forall|i: int, j: int|
                0 <= i < j < r@.len() ==> self.ranks_before(#[trigger] r@[i], #[trigger] r@[j]),
            forall|i: int, x: u32|
                #![trigger r@[i], self.ranked(x)]
                0 <= i < r@.len() && self.ranked(x) && !r@.contains(x) ==> self.ranks_before(
                    r@[i],
                    x,
                ),
    {
        let r = self.rank.top(k);
        assert(Set::<u32>::new(|a: u32| self.ranked(a)) =~= self.rank.scores().dom());
        assert forall|i: int, x: u32|
            #![trigger r@[i], self.ranked(x)]
            0 <= i < r@.len() && self.ranked(x) && !r@.contains(x) implies self.ranks_before(
                r@[i],
                x,
            ) by {
            assert(self.rank.scores().contains_key(x));
        }
        r
    }
}

} // verus!

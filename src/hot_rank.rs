use vstd::prelude::*;

verus! {

/// One article's place on the hot list.
struct RankEntry {
    article_id: u32,
    score: u128,
}

/// Scores of articles on the hot list; an article without an entry has
/// score 0.
pub struct HotRankIndex {
    entries: Vec<RankEntry>,
    model: Ghost<Map<u32, int>>,
}

impl HotRankIndex {
    /// The articles that have an entry, with their scores.
    pub closed spec fn scores(&self) -> Map<u32, int> {
        self.model@
    }

    /// The score of `article_id`, 0 when it has no entry.
    pub open spec fn score(&self, article_id: u32) -> int {
        if self.scores().contains_key(article_id) {
            self.scores()[article_id]
        } else {
            0
        }
    }

    /// Whether `a` comes before `b` on the hot list: the higher score first,
    /// and of two equal scores the lower article identifier first.
    pub open spec fn ranks_before(&self, a: u32, b: u32) -> bool {
        self.score(a) > self.score(b) || (self.score(a) == self.score(b) && a < b)
    }

    pub closed spec fn wf(&self) -> bool {
        &&& self.model@.dom().finite()
        &&& self.model@.dom().len() == self.entries@.len()
        &&& forall|i: int, j: int|
            0 <= i < j < self.entries@.len() ==> self.entries@[i].article_id
                != self.entries@[j].article_id
        &&& forall|i: int|
            #![trigger self.entries@[i]]
            0 <= i < self.entries@.len() ==> {
                &&& self.model@.contains_key(self.entries@[i].article_id)
                &&& self.model@[self.entries@[i].article_id] == self.entries@[i].score as int
            }
        &&& forall|a: u32|
            #![trigger self.model@.contains_key(a)]
            self.model@.contains_key(a) ==> exists|i: int|
                0 <= i < self.entries@.len() && #[trigger] self.entries@[i].article_id == a
    }

    /// Scores are non-negative and fit in a `u128`.
    pub proof fn lemma_score_range(&self, article_id: u32)
        requires
            self.wf(),
        ensures
            0 <= self.score(article_id) <= u128::MAX,
    {
        if self.model@.contains_key(article_id) {
            let i = choose|i: int|
                0 <= i < self.entries@.len() && #[trigger] self.entries@[i].article_id
                    == article_id;
            assert(self.entries@[i] == self.entries@[i]);
        }
    }

    pub fn new() -> (r: Self)
        ensures
            r.wf(),
            r.scores() == Map::<u32, int>::empty(),
    {
        HotRankIndex { entries: Vec::new(), model: Ghost(Map::empty()) }
    }

    /// Index of the entry of `article_id`, if it has one.
    fn find(&self, article_id: u32) -> (r: Option<usize>)
        requires
            self.wf(),
        ensures
            match r {
                Some(i) => i < self.entries@.len() && self.entries@[i as int].article_id
                    == article_id,
                None => !self.scores().contains_key(article_id),
            },
    {
        let mut i: usize = 0;
        while i < self.entries.len()
            invariant
                i <= self.entries@.len(),
                forall|j: int| 0 <= j < i ==> self.entries@[j].article_id != article_id,
            decreases self.entries@.len() - i,
        {
            if self.entries[i].article_id == article_id {
                return Some(i);
            }
            i = i + 1;
        }
        None
    }

    /// The score of `article_id`, or `None` when it has no entry.
    pub fn score_of(&self, article_id: u32) -> (r: Option<u128>)
        requires
            self.wf(),
        ensures
            self.scores().contains_key(article_id) <==> r is Some,
            r is Some ==> r->0 as int == self.score(article_id),
    {
        match self.find(article_id) {
            None => None,
            Some(i) => {
                assert(self.entries@[i as int] == self.entries@[i as int]);
                Some(self.entries[i].score)
            },
        }
    }

    /// Adds `delta` to the score of `article_id`, creating its entry at 0
    /// first when it has none, and returns the new score.
    pub fn increment(&mut self, article_id: u32, delta: u128) -> (r: u128)
        requires
            old(self).wf(),
            old(self).score(article_id) + delta <= u128::MAX,
        ensures
            final(self).wf(),
            r as int == old(self).score(article_id) + delta,
            final(self).scores() == old(self).scores().insert(article_id, r as int),
    {
        let ghost mut idx: int = 0;
        let r: u128;
        match self.find(article_id) {
            Some(i) => {
                proof {
                    idx = i as int;
                    assert(self.entries@[idx] == self.entries@[idx]);
                }
                r = self.entries[i].score + delta;
                proof {
                    assert(self.model@.insert(article_id, r as int).dom() =~= self.model@.dom());
                }
                self.entries.set(i, RankEntry { article_id, score: r });
            },
            None => {
                r = delta;
                proof {
                    idx = self.entries@.len() as int;
                    assert(self.model@.insert(article_id, r as int).dom() == self.model@.dom().insert(article_id));
                }
                self.entries.push(RankEntry { article_id, score: r });
            },
        }
        self.model = Ghost(self.model@.insert(article_id, r as int));
        proof {
            let n = self.entries@.len();
            assert forall|a: u32| #![trigger self.model@.contains_key(a)]
                self.model@.contains_key(a) implies exists|i: int|
                    0 <= i < n && #[trigger] self.entries@[i].article_id == a by {
                if a != article_id {
                    let i = choose|i: int|
                        0 <= i < old(self).entries@.len() && #[trigger] old(self).entries@[i].article_id
                            == a;
                    assert(self.entries@[i].article_id == a);
                } else {
                    assert(self.entries@[idx].article_id == a);
                }
            }
        }
        r
    }

    /// Whether `id` occurs in `ids`.
    fn listed(ids: &Vec<u32>, id: u32) -> (r: bool)
        ensures
            r == ids@.contains(id),
    {
        let mut i: usize = 0;
        while i < ids.len()
            invariant
                i <= ids@.len(),
                forall|j: int| 0 <= j < i ==> ids@[j] != id,
            decreases ids@.len() - i,
        {
            if ids[i] == id {
                return true;
            }
            i = i + 1;
        }
        false
    }

    /// The `k` articles highest on the hot list, best first (all of them
    /// when there are fewer than `k`).
    pub fn top(&self, k: usize) -> (r: Vec<u32>)
        requires
            self.wf(),
        ensures
            r@.len() == if k < self.scores().dom().len() {
                k as nat
            } else {
                self.scores().dom().len()
            },
            forall|i: int| 0 <= i < r@.len() ==> self.scores().contains_key(#[trigger] r@[i]),
            forall|i: int, j: int|
                0 <= i < j < r@.len() ==> self.ranks_before(#[trigger] r@[i], #[trigger] r@[j]),
            forall|i: int, x: u32|
                #![trigger r@[i], self.scores().contains_key(x)]
                0 <= i < r@.len() && self.scores().contains_key(x) && !r@.contains(x)
                    ==> self.ranks_before(r@[i], x),
    {
        let n = self.entries.len();
        let limit = if k < n {
            k
        } else {
            n
        };
        let mut r: Vec<u32> = Vec::new();
        while r.len() < limit
            invariant
                self.wf(),
                n == self.entries@.len(),
                limit <= n,
                limit == k || limit == n,
                r@.len() <= limit,
                forall|i: int| 0 <= i < r@.len() ==> self.scores().contains_key(#[trigger] r@[i]),
                forall|i: int, j: int|
                    0 <= i < j < r@.len() ==> self.ranks_before(#[trigger] r@[i], #[trigger] r@[j]),
                forall|i: int, x: u32|
                    #![trigger r@[i], self.scores().contains_key(x)]
                    0 <= i < r@.len() && self.scores().contains_key(x) && !r@.contains(x)
                        ==> self.ranks_before(r@[i], x),
            decreases limit - r@.len(),
        {
            proof {
                self.lemma_unlisted_exists(r@);
            }
            let mut best: usize = n;
            let mut j: usize = 0;
            while j < n
                invariant
                    self.wf(),
                    n == self.entries@.len(),
                    j <= n,
                    best == n || (best < j && !r@.contains(self.entries@[best as int].article_id)),
                    forall|m: int|
                        #![trigger self.entries@[m]]
                        0 <= m < j && !r@.contains(self.entries@[m].article_id) ==> best < n && (
                        self.entries@[m].article_id == self.entries@[best as int].article_id
                            || self.ranks_before(
                            self.entries@[best as int].article_id,
                            self.entries@[m].article_id,
                        )),
                decreases n - j,
            {
                let id = self.entries[j].article_id;
                if !Self::listed(&r, id) {
                    if best == n {
                        best = j;
                    } else {
                        let sj = self.entries[j].score;
                        let sb = self.entries[best].score;
                        let bid = self.entries[best].article_id;
                        proof {
                            assert(self.entries@[j as int] == self.entries@[j as int]);
                            assert(self.entries@[best as int] == self.entries@[best as int]);
                        }
                        if sj > sb || (sj == sb && id < bid) {
                            best = j;
                        }
                    }
                }
                j = j + 1;
            }
            proof {
                let w = choose|m: int|
                    0 <= m < n && !r@.contains(#[trigger] self.entries@[m].article_id);
                assert(self.entries@[w] == self.entries@[w]);
                assert(self.entries@[best as int] == self.entries@[best as int]);
            }
            let chosen = self.entries[best].article_id;
            let ghost old_r = r@;
            r.push(chosen);
            proof {
                assert forall|i: int, x: u32|
                    #![trigger r@[i], self.scores().contains_key(x)]
                    0 <= i < r@.len() && self.scores().contains_key(x) && !r@.contains(x)
                        implies self.ranks_before(r@[i], x) by {
                    assert(!old_r.contains(x)) by {
                        if old_r.contains(x) {
                            let q = choose|q: int| 0 <= q < old_r.len() && old_r[q] == x;
                            assert(r@[q] == x);
                        }
                    }
                    assert(x != chosen) by {
                        assert(r@[old_r.len() as int] == chosen);
                    }
                    if i == old_r.len() {
                        let m = choose|m: int|
                            0 <= m < n && #[trigger] self.entries@[m].article_id == x;
                        assert(self.entries@[m] == self.entries@[m]);
                    } else {
                        assert(r@[i] == old_r[i]);
                    }
                }
                assert forall|i: int, j: int|
                    0 <= i < j < r@.len() implies self.ranks_before(#[trigger] r@[i], #[trigger] r@[j]) by {
                    if j == old_r.len() {
                        assert(r@[i] == old_r[i]);
                    } else {
                        assert(r@[i] == old_r[i] && r@[j] == old_r[j]);
                    }
                }
                assert forall|i: int| 0 <= i < r@.len() implies self.scores().contains_key(#[trigger] r@[i]) by {
                    if i < old_r.len() {
                        assert(r@[i] == old_r[i]);
                    }
                }
            }
        }
        r
    }

    /// While fewer identifiers than entries are listed, some entry is not.
    proof fn lemma_unlisted_exists(&self, listed: Seq<u32>)
        requires
            self.wf(),
            listed.len() < self.entries@.len(),
            forall|i: int| 0 <= i < listed.len() ==> self.scores().contains_key(#[trigger] listed[i]),
            forall|i: int, j: int|
                0 <= i < j < listed.len() ==> self.ranks_before(#[trigger] listed[i], #[trigger] listed[j]),
        ensures
            exists|m: int|
                0 <= m < self.entries@.len() && !listed.contains(#[trigger] self.entries@[m].article_id),
    {
        assert(listed.no_duplicates());
        listed.unique_seq_to_set();
        if forall|m: int|
            0 <= m < self.entries@.len() ==> listed.contains(#[trigger] self.entries@[m].article_id) {
            assert forall|a: u32| self.model@.dom().contains(a) implies listed.to_set().contains(a) by {
                assert(self.model@.contains_key(a));
                let m = choose|m: int|
                    0 <= m < self.entries@.len() && #[trigger] self.entries@[m].article_id == a;
            }
            vstd::set_lib::lemma_len_subset(self.model@.dom(), listed.to_set());
        }
    }
}

} // verus!

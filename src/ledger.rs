use vstd::prelude::*;

verus! {

/// Whether a vote was newly recorded.
#[derive(Clone, Copy, Debug, PartialEq, Eq, Structural)]
pub enum VoteRecord {
    Added,
    AlreadyPresent,
}

/// The voters of one article, each held once.
struct VoterSet {
    article_id: u32,
    voters: Vec<u32>,
}

/// Per-article sets of voter identifiers: one vote per voter per article.
pub struct VoteLedger {
    sets: Vec<VoterSet>,
    model: Ghost<Map<u32, Set<u32>>>,
}

impl VoteLedger {
    /// The voters recorded for `article_id`.
    pub closed spec fn voters(&self, article_id: u32) -> Set<u32> {
        if self.model@.contains_key(article_id) {
            self.model@[article_id]
        } else {
            Set::empty()
        }
    }

    pub closed spec fn wf(&self) -> bool {
        &&& forall|i: int, j: int|
            0 <= i < j < self.sets@.len() ==> self.sets@[i].article_id != self.sets@[j].article_id
        &&& forall|i: int|
            #![trigger self.sets@[i]]
            0 <= i < self.sets@.len() ==> {
                &&& self.sets@[i].voters@.no_duplicates()
                &&& self.model@.contains_key(self.sets@[i].article_id)
                &&& self.model@[self.sets@[i].article_id] == self.sets@[i].voters@.to_set()
            }
        &&& forall|a: u32|
            #![trigger self.model@.contains_key(a)]
            self.model@.contains_key(a) ==> exists|i: int|
                0 <= i < self.sets@.len() && #[trigger] self.sets@[i].article_id == a
    }

    /// Every voter set is finite and no larger than a `Vec` can hold.
    pub proof fn lemma_voters_bounded(&self, article_id: u32)
        requires
            self.wf(),
        ensures
            self.voters(article_id).finite(),
            self.voters(article_id).len() <= usize::MAX,
    {
        broadcast use vstd::std_specs::vec::axiom_spec_len;

        if self.model@.contains_key(article_id) {
            let i = choose|i: int|
                0 <= i < self.sets@.len() && #[trigger] self.sets@[i].article_id == article_id;
            let s = self.sets@[i].voters@;
            assert(s.no_duplicates());
            s.unique_seq_to_set();
            assert(self.sets@[i].voters.len() == s.len());
        }
    }

    pub fn new() -> (r: Self)
        ensures
            r.wf(),
            forall|a: u32| r.voters(a) == Set::<u32>::empty(),
    {
        VoteLedger { sets: Vec::new(), model: Ghost(Map::empty()) }
    }

    /// Index of the set of `article_id`, if it has one.
    fn find(&self, article_id: u32) -> (r: Option<usize>)
        requires
            self.wf(),
        ensures
            match r {
                Some(i) => i < self.sets@.len() && self.sets@[i as int].article_id == article_id,
                None => !self.model@.contains_key(article_id),
            },
    {
        let mut i: usize = 0;
        while i < self.sets.len()
            invariant
                i <= self.sets@.len(),
                forall|j: int| 0 <= j < i ==> self.sets@[j].article_id != article_id,
            decreases self.sets@.len() - i,
        {
            if self.sets[i].article_id == article_id {
                return Some(i);
            }
            i = i + 1;
        }
        None
    }

    /// Whether `voter_id` has voted on `article_id`.
    pub fn has_voted(&self, article_id: u32, voter_id: u32) -> (r: bool)
        requires
            self.wf(),
        ensures
            r == self.voters(article_id).contains(voter_id),
    {
        match self.find(article_id) {
            None => false,
            Some(i) => {
                let voters = &self.sets[i].voters;
                assert(self.sets@[i as int].voters@ == voters@);
                assert(self.voters(article_id) == voters@.to_set());
                let mut j: usize = 0;
                while j < voters.len()
                    invariant
                        j <= voters@.len(),
                        self.voters(article_id) == voters@.to_set(),
                        forall|k: int| 0 <= k < j ==> voters@[k] != voter_id,
                    decreases voters@.len() - j,
                {
                    if voters[j] == voter_id {
                        assert(voters@.contains(voter_id));
                        assert(voters@.to_set().contains(voter_id));
                        return true;
                    }
                    j = j + 1;
                }
                assert(!voters@.contains(voter_id));
                assert(!voters@.to_set().contains(voter_id));
                false
            },
        }
    }

    /// Adds `voter_id` to the voters of `article_id`, reporting whether it
    /// was absent. A voter already present leaves the ledger unchanged.
    pub fn record_vote(&mut self, article_id: u32, voter_id: u32) -> (r: VoteRecord)
        requires
            old(self).wf(),
        ensures
            final(self).wf(),
            (r == VoteRecord::Added) == !old(self).voters(article_id).contains(voter_id),
            forall|a: u32|
                #![trigger final(self).voters(a)]
                final(self).voters(a) == if a == article_id {
                    old(self).voters(a).insert(voter_id)
                } else {
                    old(self).voters(a)
                },
    {
        if self.has_voted(article_id, voter_id) {
            proof {
                assert forall|a: u32| #![trigger self.voters(a)]
                    self.voters(a) == if a == article_id {
                        old(self).voters(a).insert(voter_id)
                    } else {
                        old(self).voters(a)
                    } by {
                    if a == article_id {
                        assert(old(self).voters(a).insert(voter_id) =~= old(self).voters(a));
                    }
                }
            }
            return VoteRecord::AlreadyPresent;
        }
        let ghost old_voters = self.voters(article_id);
        let ghost mut idx: int = 0;
        match self.find(article_id) {
            Some(i) => {
                let ghost before = self.sets@[i as int].voters@;
                proof {
                    idx = i as int;
                    assert(self.sets@[idx] == self.sets@[idx]);
                    assert(old_voters == before.to_set());
                }
                let mut set = VoterSet { article_id, voters: Vec::new() };
                std::mem::swap(&mut set, &mut self.sets[i]);
                set.voters.push(voter_id);
                proof {
                    assert(set.voters@ == before.push(voter_id));
                    assert forall|x: u32| set.voters@.contains(x) <==> (before.contains(x) || x == voter_id) by {
                        if before.contains(x) {
                            let k = choose|k: int| 0 <= k < before.len() && before[k] == x;
                            assert(set.voters@[k] == x);
                        }
                        if x == voter_id {
                            assert(set.voters@[before.len() as int] == x);
                        }
                    }
                    assert(set.voters@.to_set() =~= before.to_set().insert(voter_id));
                    assert(!before.contains(voter_id));
                    assert(set.voters@.no_duplicates());
                }
                self.sets.set(i, set);
            },
            None => {
                let mut voters: Vec<u32> = Vec::new();
                voters.push(voter_id);
                proof {
                    idx = self.sets@.len() as int;
                    assert(voters@[0] == voter_id);
                    assert(voters@.to_set() =~= Set::empty().insert(voter_id));
                }
                self.sets.push(VoterSet { article_id, voters });
            },
        }
        self.model = Ghost(self.model@.insert(article_id, old_voters.insert(voter_id)));
        proof {
            let n = self.sets@.len();
            assert forall|a: u32| #![trigger self.model@.contains_key(a)]
                self.model@.contains_key(a) implies exists|i: int|
                    0 <= i < n && #[trigger] self.sets@[i].article_id == a by {
                if a != article_id {
                    let i = choose|i: int|
                        0 <= i < old(self).sets@.len() && #[trigger] old(self).sets@[i].article_id == a;
                    assert(self.sets@[i].article_id == a);
                } else {
                    assert(self.sets@[idx].article_id == a);
                }
            }
        }
        VoteRecord::Added
    }
}

} // verus!

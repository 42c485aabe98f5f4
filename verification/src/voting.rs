//! A ballot: a fixed list of named candidates, one vote per account, counted
//! per candidate.

use vstd::prelude::*;

use crate::AccountId;
use crate::assoc::AssocMap;

verus! {

/// Why a vote was rejected; the state is left unchanged.
#[derive(Clone, Copy, Debug, PartialEq, Eq, Structural)]
pub enum VoteError {
    /// The caller has voted already.
    AlreadyVoted,
    /// No candidate of that name stands.
    CandidateNotFound,
}

/// The votes counted for `name`: the count parallel to the first candidate
/// entry of that name, or zero when no such candidate stands.
pub open spec fn spec_count(candidates: Seq<String>, votes: Seq<u32>, name: Seq<char>) -> u32
    decreases candidates.len(),
{
    if candidates.len() == 0 || votes.len() == 0 {
        0
    } else if candidates[0]@ == name {
        votes[0]
    } else {
        spec_count(candidates.drop_first(), votes.drop_first(), name)
    }
}

/// Whether a candidate of that name stands.
pub open spec fn spec_has_candidate(candidates: Seq<String>, name: Seq<char>) -> bool
    decreases candidates.len(),
{
    if candidates.len() == 0 {
        false
    } else if candidates[0]@ == name {
        true
    } else {
        spec_has_candidate(candidates.drop_first(), name)
    }
}

proof fn lemma_count_skip(candidates: Seq<String>, votes: Seq<u32>, i: int, name: Seq<char>)
    requires
        candidates.len() == votes.len(),
        0 <= i <= candidates.len(),
        forall|j: int| 0 <= j < i ==> (#[trigger] candidates[j])@ != name,
    ensures
        spec_count(candidates, votes, name) == spec_count(
            candidates.skip(i),
            votes.skip(i),
            name,
        ),
        spec_has_candidate(candidates, name) == spec_has_candidate(candidates.skip(i), name),
    decreases i,
{
    if i > 0 {
        lemma_count_skip(candidates, votes, i - 1, name);
        let c = candidates.skip(i - 1);
        let v = votes.skip(i - 1);
        assert(c.len() == candidates.len() - i + 1);
        assert(c[0] == candidates[i - 1]);
        assert(c.drop_first() =~= candidates.skip(i));
        assert(v.drop_first() =~= votes.skip(i));
        assert(spec_count(c, v, name) == spec_count(c.drop_first(), v.drop_first(), name));
        assert(spec_has_candidate(c, name) == spec_has_candidate(c.drop_first(), name));
    } else {
        assert(candidates.skip(0) =~= candidates);
        assert(votes.skip(0) =~= votes);
    }
}

proof fn lemma_count_update(candidates: Seq<String>, votes: Seq<u32>, i: int, name: Seq<char>, value: u32)
    requires
        candidates.len() == votes.len(),
        0 <= i < candidates.len(),
        candidates[i]@ == name,
        forall|j: int| 0 <= j < i ==> (#[trigger] candidates[j])@ != name,
    ensures
        spec_count(candidates, votes.update(i, value), name) == value,
        forall|x: Seq<char>|
            x != name ==> spec_count(candidates, votes.update(i, value), x) == spec_count(
                candidates,
                votes,
                x,
            ),
    decreases i,
{
    let t = votes.update(i, value);
    assert(t.len() == votes.len());
    if i == 0 {
        assert(t.drop_first() =~= votes.drop_first());
        assert(t[0] == value);
        assert forall|x: Seq<char>| x != name implies spec_count(candidates, t, x) == spec_count(
            candidates,
            votes,
            x,
        ) by {
            assert(spec_count(candidates, t, x) == spec_count(
                candidates.drop_first(),
                t.drop_first(),
                x,
            ));
            assert(spec_count(candidates, votes, x) == spec_count(
                candidates.drop_first(),
                votes.drop_first(),
                x,
            ));
        }
    } else {
        let c = candidates.drop_first();
        let v = votes.drop_first();
        assert(c[i - 1] == candidates[i]);
        assert forall|j: int| 0 <= j < i - 1 implies (#[trigger] c[j])@ != name by {
            assert(c[j] == candidates[j + 1]);
        }
        lemma_count_update(c, v, i - 1, name, value);
        assert(t.drop_first() =~= v.update(i - 1, value));
        assert(t[0] == votes[0]);
        assert(candidates[0]@ != name);
        assert(spec_count(candidates, t, name) == spec_count(c, t.drop_first(), name));
        assert forall|x: Seq<char>| x != name implies spec_count(candidates, t, x) == spec_count(
            candidates,
            votes,
            x,
        ) by {
            if x == candidates[0]@ {
                assert(spec_count(candidates, t, x) == t[0]);
                assert(spec_count(candidates, votes, x) == votes[0]);
            } else {
                assert(spec_count(candidates, t, x) == spec_count(c, t.drop_first(), x));
                assert(spec_count(candidates, votes, x) == spec_count(c, v, x));
            }
        }
    }
}

/// Every candidate's count is zero when every tallied count is zero.
proof fn lemma_count_zero(candidates: Seq<String>, votes: Seq<u32>, name: Seq<char>)
    requires
        candidates.len() == votes.len(),
        forall|j: int| 0 <= j < votes.len() ==> (#[trigger] votes[j]) == 0,
    ensures
        spec_count(candidates, votes, name) == 0,
    decreases candidates.len(),
{
    if candidates.len() > 0 {
        let c = candidates.drop_first();
        let v = votes.drop_first();
        assert forall|j: int| 0 <= j < v.len() implies (#[trigger] v[j]) == 0 by {
            assert(v[j] == votes[j + 1]);
        }
        lemma_count_zero(c, v, name);
    }
}

/// The ballot: the candidate list, one running count per candidate, and the
/// record of who has voted.
#[derive(Clone)]
pub struct Voting {
    pub candidates: Vec<String>,
    pub votes: Vec<u32>,
    pub has_voted: AssocMap<bool>,
}

impl Voting {
    /// One count stands for each candidate.
    pub open spec fn wf(self) -> bool {
        self.votes@.len() == self.candidates@.len()
    }

    /// Whether `id` has voted already; accounts start without a vote.
    pub open spec fn spec_voted(self, id: AccountId) -> bool {
        match self.has_voted.spec_get(id) {
            Some(b) => b,
            None => false,
        }
    }

    /// A fresh ballot over the given candidates, with no votes cast.
    pub fn new(candidates: Vec<String>) -> (r: Voting)
        ensures
            r.wf(),
            r.candidates@ == candidates@,
            forall|x: Seq<char>| spec_count(r.candidates@, r.votes@, x) == 0,
            forall|x: AccountId| !r.spec_voted(x),
    {
        let n = candidates.len();
        let mut votes: Vec<u32> = Vec::new();
        let mut i: usize = 0;
        while i < n
            invariant
                i <= n,
                votes@.len() == i,
                forall|j: int| 0 <= j < i ==> (#[trigger] votes@[j]) == 0,
            decreases n - i,
        {
            votes.push(0);
            i += 1;
        }
        proof {
            lemma_count_zero(candidates@, votes@, Seq::<char>::empty());
        }
        let r = Voting { candidates, votes, has_voted: AssocMap::new() };
        proof {
            assert forall|x: Seq<char>| spec_count(r.candidates@, r.votes@, x) == 0 by {
                lemma_count_zero(r.candidates@, r.votes@, x);
            }
        }
        r
    }

    /// Casts `caller`'s one vote for the named candidate. Fails, changing
    /// nothing, when the caller has voted already or no such candidate
    /// stands; the caller's right to vote is spent only on success.
    pub fn vote(&mut self, caller: AccountId, candidate: String) -> (r: Result<(), VoteError>)
        requires
            old(self).wf(),
            spec_count(old(self).candidates@, old(self).votes@, candidate@) < u32::MAX,
        ensures
            final(self).wf(),
            final(self).candidates@ == old(self).candidates@,
            match r {
                Ok(()) => {
                    &&& !old(self).spec_voted(caller)
                    &&& spec_has_candidate(old(self).candidates@, candidate@)
                    &&& spec_count(final(self).candidates@, final(self).votes@, candidate@)
                        == spec_count(old(self).candidates@, old(self).votes@, candidate@) + 1
                    &&& forall|x: Seq<char>|
                        x != candidate@ ==> spec_count(final(self).candidates@, final(self).votes@, x)
                            == spec_count(old(self).candidates@, old(self).votes@, x)
                    &&& final(self).spec_voted(caller)
                    &&& forall|x: AccountId|
                        x != caller ==> final(self).spec_voted(x) == old(self).spec_voted(x)
                },
                Err(VoteError::AlreadyVoted) => old(self).spec_voted(caller) && *final(self)
                    == *old(self),
                Err(VoteError::CandidateNotFound) => {
                    &&& !old(self).spec_voted(caller)
                    &&& !spec_has_candidate(old(self).candidates@, candidate@)
                    &&& *final(self) == *old(self)
                },
            },
    {
        let voted = match self.has_voted.get(caller) {
            Some(b) => b,
            None => false,
        };
        if voted {
            return Err(VoteError::AlreadyVoted);
        }
        let n = self.candidates.len();
        let mut i: usize = 0;
        while i < n
            invariant
                *self == *old(self),
                old(self).wf(),
                !old(self).spec_voted(caller),
                spec_count(old(self).candidates@, old(self).votes@, candidate@) < u32::MAX,
                n == self.candidates.len(),
                i <= n,
                forall|j: int| 0 <= j < i ==> (#[trigger] self.candidates@[j])@ != candidate@,
            decreases n - i,
        {
            if self.candidates[i] == candidate {
                proof {
                    lemma_count_skip(old(self).candidates@, old(self).votes@, i as int, candidate@);
                    let cs = old(self).candidates@.skip(i as int);
                    let vs = old(self).votes@.skip(i as int);
                    assert(cs.len() == old(self).candidates@.len() - i);
                    assert(vs.len() == old(self).votes@.len() - i);
                    assert(cs[0] == old(self).candidates@[i as int]);
                    assert(vs[0] == old(self).votes@[i as int]);
                    assert(spec_count(cs, vs, candidate@) == vs[0]);
                    assert(spec_count(old(self).candidates@, old(self).votes@, candidate@)
                        == old(self).votes@[i as int]);
                    lemma_count_update(
                        old(self).candidates@,
                        old(self).votes@,
                        i as int,
                        candidate@,
                        (old(self).votes@[i as int] + 1) as u32,
                    );
                }
                let current = self.votes[i];
                self.votes.set(i, current + 1);
                self.has_voted.set(caller, true);
                proof {
                    assert(self.votes@ == old(self).votes@.update(
                        i as int,
                        (old(self).votes@[i as int] + 1) as u32,
                    ));
                    assert forall|x: Seq<char>| x != candidate@ implies spec_count(
                        self.candidates@,
                        self.votes@,
                        x,
                    ) == spec_count(old(self).candidates@, old(self).votes@, x) by {
                        assert(spec_count(
                            old(self).candidates@,
                            old(self).votes@.update(
                                i as int,
                                (old(self).votes@[i as int] + 1) as u32,
                            ),
                            x,
                        ) == spec_count(old(self).candidates@, old(self).votes@, x));
                    }
                }
                return Ok(());
            }
            i += 1;
        }
        proof {
            lemma_count_skip(old(self).candidates@, old(self).votes@, n as int, candidate@);
            assert(old(self).candidates@.skip(n as int) =~= Seq::<String>::empty());
        }
        Err(VoteError::CandidateNotFound)
    }

    /// The votes counted so far for the named candidate; zero for a name
    /// not on the ballot.
    pub fn get_votes(&self, candidate: String) -> (r: u32)
        requires
            self.wf(),
        ensures
            r == spec_count(self.candidates@, self.votes@, candidate@),
    {
        let n = self.candidates.len();
        let mut i: usize = 0;
        while i < n
            invariant
                self.wf(),
                n == self.candidates.len(),
                i <= n,
                forall|j: int| 0 <= j < i ==> (#[trigger] self.candidates@[j])@ != candidate@,
            decreases n - i,
        {
            if self.candidates[i] == candidate {
                proof {
                    lemma_count_skip(self.candidates@, self.votes@, i as int, candidate@);
                    assert(self.candidates@.skip(i as int)[0] == self.candidates@[i as int]);
                    assert(self.votes@.skip(i as int)[0] == self.votes@[i as int]);
                }
                return self.votes[i];
            }
            i += 1;
        }
        proof {
            lemma_count_skip(self.candidates@, self.votes@, n as int, candidate@);
            assert(self.candidates@.skip(n as int) =~= Seq::<String>::empty());
        }
        0
    }

    /// A copy of the candidate list, in ballot order.
    pub fn get_candidates(&self) -> (r: Vec<String>)
        ensures
            r@.len() == self.candidates@.len(),
            forall|i: int| 0 <= i < r@.len() ==> (#[trigger] r@[i])@ == self.candidates@[i]@,
    {
        let n = self.candidates.len();
        let mut result: Vec<String> = Vec::new();
        let mut i: usize = 0;
        while i < n
            invariant
                n == self.candidates.len(),
                i <= n,
                result@.len() == i,
                forall|j: int| 0 <= j < i ==> (#[trigger] result@[j])@ == self.candidates@[j]@,
            decreases n - i,
        {
            result.push(self.candidates[i].clone());
            i += 1;
        }
        result
    }
}

} // verus!

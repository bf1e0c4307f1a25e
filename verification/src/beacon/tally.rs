//! The tally of a beacon: for each answer that has votes, the participants who voted for it.

use vstd::prelude::*;

use crate::ordered::{OrderedMap, StringSet};

verus! {

/// Whether `tally` has a vote of `voter` for `answer`.
pub open spec fn has_vote(
    tally: Map<Seq<char>, Set<Seq<char>>>,
    answer: Seq<char>,
    voter: Seq<char>,
) -> bool {
    tally.contains_key(answer) && tally[answer].contains(voter)
}

/// A map from answer ID to the set of participants who voted for that answer.
///
/// An answer without votes has no entry. The answers are listed in ascending order of their
/// IDs, and so are the voters of each answer.
#[derive(Clone, Debug)]
pub struct Tally {
    votes: OrderedMap<StringSet>,
}

impl View for Tally {
    type V = Map<Seq<char>, Set<Seq<char>>>;

    open spec fn view(&self) -> Map<Seq<char>, Set<Seq<char>>> {
        Map::new(
            |answer: Seq<char>| self.answer_seq().contains(answer),
            |answer: Seq<char>| self.voter_seq()[self.answer_seq().index_of(answer)]@,
        )
    }
}

impl Tally {
    /// The answers that have votes, in the order in which the tally lists them.
    pub closed spec fn answer_seq(&self) -> Seq<Seq<char>> {
        self.votes.key_seq()
    }

    /// The voters of each listed answer, at the position of the answer.
    pub closed spec fn voter_seq(&self) -> Seq<StringSet> {
        self.votes.value_seq()
    }

    /// The answers are listed in ascending order, and each has its voters: at least one, in
    /// ascending order.
    pub open spec fn wf(&self) -> bool {
        &&& crate::ordered::ascending(self.answer_seq())
        &&& self.answer_seq().len() == self.voter_seq().len()
        &&& forall|i: int|
            0 <= i < self.voter_seq().len() ==> (#[trigger] self.voter_seq()[i]).wf()
                && self.voter_seq()[i].listing().len() > 0
    }

    /// The entry listed at position `i` is an entry of the view.
    pub proof fn lemma_view_at(&self, i: int)
        requires
            self.wf(),
            0 <= i < self.answer_seq().len(),
        ensures
            self@.contains_key(self.answer_seq()[i]),
            self@[self.answer_seq()[i]] == self.voter_seq()[i]@,
            self.voter_seq()[i]@.finite(),
            self.voter_seq()[i]@.len() == self.voter_seq()[i].listing().len(),
            self.voter_seq()[i]@.len() > 0,
    {
        crate::ordered::lemma_ascending_no_duplicates(self.answer_seq());
        let j = self.answer_seq().index_of(self.answer_seq()[i]);
        assert(self.answer_seq().contains(self.answer_seq()[i]));
        assert(j == i);
        let set = self.voter_seq()[i];
        crate::ordered::lemma_ascending_no_duplicates(set.listing());
        set.listing().unique_seq_to_set();
        vstd::seq_lib::seq_to_set_is_finite(set.listing());
    }

    /// Every answer of a tally has a vote.
    pub proof fn lemma_no_empty_answer(&self, answer: Seq<char>)
        requires
            self.wf(),
            self@.contains_key(answer),
        ensures
            self@[answer].finite(),
            self@[answer].len() > 0,
            exists|voter: Seq<char>| has_vote(self@, answer, voter),
    {
        let i = self.answer_seq().index_of(answer);
        self.lemma_view_at(i);
        let set = self.voter_seq()[i];
        assert(set@.contains(set.listing()[0]));
        assert(has_vote(self@, answer, set.listing()[0]));
    }

    /// Two tallies with the same votes list the same answers and the same voters, in the
    /// same order.
    pub proof fn lemma_same_view_same_listing(a: Tally, b: Tally)
        requires
            a.wf(),
            b.wf(),
            a@ == b@,
        ensures
            a.answer_seq() == b.answer_seq(),
            forall|i: int|
                0 <= i < a.answer_seq().len() ==> (#[trigger] a.voter_seq()[i]).listing()
                    == b.voter_seq()[i].listing(),
    {
        assert(a.answer_seq().to_set() =~= b.answer_seq().to_set()) by {
            assert forall|k: Seq<char>|
                a.answer_seq().to_set().contains(k) == b.answer_seq().to_set().contains(k) by {
                assert(a@.contains_key(k) == a.answer_seq().contains(k));
                assert(b@.contains_key(k) == b.answer_seq().contains(k));
            }
        }
        crate::ordered::lemma_ascending_unique(a.answer_seq(), b.answer_seq());
        assert forall|i: int| 0 <= i < a.answer_seq().len() implies (#[trigger] a.voter_seq()[i]).listing()
            == b.voter_seq()[i].listing() by {
            a.lemma_view_at(i);
            b.lemma_view_at(i);
            crate::ordered::lemma_ascending_unique(
                a.voter_seq()[i].listing(),
                b.voter_seq()[i].listing(),
            );
        }
    }

    /// The tally without any vote.
    pub fn new() -> (t: Self)
        ensures
            t.wf(),
            t@ == Map::<Seq<char>, Set<Seq<char>>>::empty(),
            t.answer_seq().len() == 0,
    {
        let t = Tally { votes: OrderedMap::new() };
        assert(t@ =~= Map::<Seq<char>, Set<Seq<char>>>::empty());
        t
    }

    /// The number of answers that have votes.
    pub fn len(&self) -> (n: usize)
        ensures
            n == self.answer_seq().len(),
    {
        self.votes.len()
    }

    /// Whether no answer has a vote.
    pub fn is_empty(&self) -> (b: bool)
        ensures
            b == (self.answer_seq().len() == 0),
            b == (self@ == Map::<Seq<char>, Set<Seq<char>>>::empty()),
    {
        proof {
            if self.answer_seq().len() > 0 {
                assert(self.answer_seq().contains(self.answer_seq()[0]));
                assert(self@.contains_key(self.answer_seq()[0]));
            } else {
                assert(self@ =~= Map::<Seq<char>, Set<Seq<char>>>::empty());
            }
        }
        self.votes.len() == 0
    }

    /// The ID of the answer listed at position `i`.
    pub fn answer_id(&self, i: usize) -> (id: &String)
        requires
            i < self.answer_seq().len(),
        ensures
            id@ == self.answer_seq()[i as int],
    {
        self.votes.key(i)
    }

    /// The voters of the answer listed at position `i`.
    pub fn voters(&self, i: usize) -> (set: &StringSet)
        requires
            self.wf(),
            i < self.answer_seq().len(),
        ensures
            *set == self.voter_seq()[i as int],
            set.wf(),
            set@ == self@[self.answer_seq()[i as int]],
    {
        proof {
            self.lemma_view_at(i as int);
        }
        self.votes.value(i)
    }

    /// The voters of `answer`, if it has any.
    pub fn get(&self, answer: &str) -> (r: Option<&StringSet>)
        requires
            self.wf(),
        ensures
            match r {
                Some(set) => self@.contains_key(answer@) && set@ == self@[answer@] && set.wf(),
                None => !self@.contains_key(answer@),
            },
    {
        match self.votes.find(answer) {
            Some(i) => {
                proof {
                    self.lemma_view_at(i as int);
                }
                Some(self.votes.value(i))
            },
            None => None,
        }
    }

    /// The number of votes for `answer`.
    pub fn count(&self, answer: &str) -> (n: usize)
        requires
            self.wf(),
        ensures
            self@.contains_key(answer@) ==> self@[answer@].finite() && n == self@[answer@].len()
                && n > 0,
            !self@.contains_key(answer@) ==> n == 0,
    {
        match self.votes.find(answer) {
            Some(i) => {
                proof {
                    self.lemma_view_at(i as int);
                }
                self.votes.value(i).len()
            },
            None => 0,
        }
    }

    /// Records that `voter` votes for `answer`.
    pub fn add_vote(&mut self, answer: &str, voter: &str)
        requires
            old(self).wf(),
        ensures
            final(self).wf(),
            forall|a: Seq<char>, v: Seq<char>|
                has_vote(final(self)@, a, v) <==> has_vote(old(self)@, a, v) || (a == answer@ && v
                    == voter@),
    {
        let ghost answers0 = self.answer_seq();
        let ghost voters0 = self.voter_seq();
        let ghost view0 = self@;
        match self.votes.find(answer) {
            Some(i) => {
                let set = self.votes.value_mut(i);
                set.insert(voter);
                proof {
                    let set1 = self.voter_seq()[i as int];
                    assert(set1@.contains(voter@));
                    assert(set1.listing().contains(voter@));
                    crate::ordered::lemma_ascending_no_duplicates(answers0);
                    assert forall|a: Seq<char>, v: Seq<char>|
                        has_vote(self@, a, v) <==> has_vote(view0, a, v) || (a == answer@ && v
                            == voter@) by {
                        if answers0.contains(a) {
                            let j = answers0.index_of(a);
                            if j == i {
                            } else {
                                assert(self.voter_seq()[j] == voters0[j]);
                            }
                        }
                    }
                }
            },
            None => {
                let mut set = StringSet::new();
                set.insert(voter);
                proof {
                    assert(set@.contains(voter@));
                    assert(set.listing().contains(voter@));
                }
                self.votes.set(answer, set);
                proof {
                    let answers1 = self.answer_seq();
                    let voters1 = self.voter_seq();
                    let model0 = old(self).votes.model();
                    let model1 = self.votes.model();
                    assert(model1 == model0.insert(answer@, set));
                    crate::ordered::lemma_ascending_no_duplicates(answers0);
                    crate::ordered::lemma_ascending_no_duplicates(answers1);
                    assert forall|a: Seq<char>| answers1.contains(a) == (answers0.contains(a) || a
                        == answer@) by {
                        assert(answers1.to_set().contains(a) == answers0.to_set().insert(
                            answer@,
                        ).contains(a));
                    }
                    assert forall|i: int| 0 <= i < voters1.len() implies (#[trigger] voters1[i]).wf()
                        && voters1[i].listing().len() > 0 by {
                        self.votes.lemma_model_at(i);
                        let a = answers1[i];
                        assert(answers1.contains(a));
                        if a != answer@ {
                            let j = answers0.index_of(a);
                            old(self).votes.lemma_model_at(j);
                            assert(voters1[i] == voters0[j]);
                        }
                    }
                    assert forall|a: Seq<char>, v: Seq<char>|
                        has_vote(self@, a, v) <==> has_vote(view0, a, v) || (a == answer@ && v
                            == voter@) by {
                        if answers1.contains(a) {
                            let i = answers1.index_of(a);
                            self.votes.lemma_model_at(i);
                            if a != answer@ {
                                let j = answers0.index_of(a);
                                old(self).votes.lemma_model_at(j);
                            }
                        }
                    }
                }
            },
        }
    }
}

} // verus!

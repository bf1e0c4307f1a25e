//! Types for the `m.beacon.end` event.

use vstd::prelude::*;

use crate::beacon::tally::Tally;
use crate::message::TextContentBlock;
use crate::ordered::{
    ascending, lemma_ascending_no_duplicates, lemma_insert_to_set, OrderedMap,
};
use crate::relation::Reference;
use crate::text::lex_lt;
use crate::uint::{uint_from_usize, uint_max, MAX_SAFE_UINT};

verus! {

/// The payload for a beacon end event.
///
/// This type can be generated from the beacon start and beacon response events with
/// `OriginalSyncBeaconStartEvent::compile_results()`.
#[derive(Clone, Debug)]
pub struct BeaconEndEventContent {
    /// The text representation of the results.
    pub text: TextContentBlock,
    /// The sender's perspective of the results.
    pub beacon_results: Option<BeaconResultsContentBlock>,
    /// Information about the beacon start event this responds to.
    pub relates_to: Reference,
}

impl BeaconEndEventContent {
    /// Creates a new `BeaconEndEventContent` with the given fallback representation and
    /// that responds to the given beacon start event ID.
    pub fn new(text: TextContentBlock, beacon_start_id: String) -> (content: Self)
        ensures
            content.text == text,
            content.beacon_results is None,
            content.relates_to.event_id@ == beacon_start_id@,
    {
        BeaconEndEventContent {
            text,
            beacon_results: None,
            relates_to: Reference::new(beacon_start_id),
        }
    }

    /// Creates a new `BeaconEndEventContent` with the given plain text fallback representation
    /// and that responds to the given beacon start event ID.
    pub fn with_plain_text(plain_text: String, beacon_start_id: String) -> (content: Self)
        ensures
            content.text.plain_text() == Some(plain_text@),
            content.text@.len() == 1,
            content.beacon_results is None,
            content.relates_to.event_id@ == beacon_start_id@,
    {
        BeaconEndEventContent {
            text: TextContentBlock::plain(plain_text),
            beacon_results: None,
            relates_to: Reference::new(beacon_start_id),
        }
    }
}

/// One line of a leaderboard: an answer ID and the number of votes for it.
pub type Standing = (Seq<char>, u64);

/// The entries of `v`, each with its answer ID as a sequence of characters.
pub open spec fn standing_views(v: Seq<(&str, u64)>) -> Seq<Standing> {
    v.map_values(|e: (&str, u64)| (e.0@, e.1))
}

/// Whether `a` stands before `b` in a leaderboard: it has more votes, or as many and the
/// smaller answer ID.
pub open spec fn ranks_before(a: Standing, b: Standing) -> bool {
    a.1 > b.1 || (a.1 == b.1 && lex_lt(a.0, b.0))
}

/// Whether `board` goes from the highest number of votes to the lowest, with answers that have
/// as many votes as each other in ascending order of their IDs.
pub open spec fn ranked(board: Seq<Standing>) -> bool {
    forall|i: int, j: int|
        0 <= i < j < board.len() ==> ranks_before(#[trigger] board[i], #[trigger] board[j])
}

/// The entries of a map from answer ID to number of votes.
pub open spec fn count_entries(counts: Map<Seq<char>, u64>) -> Set<Standing> {
    Set::new(|e: Standing| counts.contains_key(e.0) && counts[e.0] == e.1)
}

/// The leaderboard of `entries`: the ranked list that holds them.
pub open spec fn ranking(entries: Set<Standing>) -> Seq<Standing> {
    choose|board: Seq<Standing>| ranked(board) && board.to_set() == entries
}

/// A number of votes as a results block holds it: numbers beyond `MAX_SAFE_UINT` are held as
/// `MAX_SAFE_UINT`.
pub open spec fn capped(n: nat) -> u64 {
    if n <= MAX_SAFE_UINT {
        n as u64
    } else {
        MAX_SAFE_UINT
    }
}

/// The number of votes of every answer of `tally`.
pub open spec fn vote_counts(tally: Map<Seq<char>, Set<Seq<char>>>) -> Map<Seq<char>, u64> {
    Map::new(|answer: Seq<char>| tally.contains_key(answer), |answer: Seq<char>| capped(tally[answer].len()))
}

/// A block for the results of a beacon.
///
/// This is a map of answer ID to number of votes, listed in ascending order of the answer IDs.
#[derive(Clone, Debug)]
pub struct BeaconResultsContentBlock {
    counts: OrderedMap<u64>,
}

impl View for BeaconResultsContentBlock {
    type V = Map<Seq<char>, u64>;

    closed spec fn view(&self) -> Map<Seq<char>, u64> {
        self.counts.model()
    }
}

impl BeaconResultsContentBlock {
    /// The answer IDs, in the order in which the block lists them.
    pub closed spec fn answer_seq(&self) -> Seq<Seq<char>> {
        self.counts.key_seq()
    }

    /// The number of votes of each listed answer, at the position of the answer.
    pub closed spec fn count_seq(&self) -> Seq<u64> {
        self.counts.value_seq()
    }

    /// The answers are listed in ascending order, each with its number of votes.
    pub open spec fn wf(&self) -> bool {
        &&& ascending(self.answer_seq())
        &&& self.answer_seq().len() == self.count_seq().len()
    }

    /// The entries of the block, in the order in which it lists them.
    pub open spec fn entries(&self) -> Seq<Standing> {
        Seq::new(self.answer_seq().len(), |i: int| (self.answer_seq()[i], self.count_seq()[i]))
    }

    /// The entry listed at position `i` is an entry of the view.
    pub proof fn lemma_view_at(&self, i: int)
        requires
            self.wf(),
            0 <= i < self.answer_seq().len(),
        ensures
            self@.contains_key(self.answer_seq()[i]),
            self@[self.answer_seq()[i]] == self.count_seq()[i],
    {
        self.counts.lemma_model_at(i);
    }

    /// The listed entries are those of the view.
    pub proof fn lemma_entries(&self)
        requires
            self.wf(),
        ensures
            self.entries().to_set() == count_entries(self@),
            self.entries().no_duplicates(),
    {
        let entries = self.entries();
        lemma_ascending_no_duplicates(self.answer_seq());
        assert forall|i: int, j: int|
            0 <= i < entries.len() && 0 <= j < entries.len() && i != j implies entries[i]
            != entries[j] by {
            assert(self.answer_seq()[i] != self.answer_seq()[j]);
        }
        assert forall|e: Standing| entries.to_set().contains(e) == count_entries(self@).contains(
            e,
        ) by {
            if entries.contains(e) {
                let i = entries.index_of(e);
                self.lemma_view_at(i);
            }
            if self@.contains_key(e.0) && self@[e.0] == e.1 {
                let i = self.answer_seq().index_of(e.0);
                self.lemma_view_at(i);
                assert(entries[i] == e);
            }
        }
        assert(entries.to_set() =~= count_entries(self@));
    }

    /// The view holds the listed answers and no other.
    pub proof fn lemma_view_keys(&self, answer: Seq<char>)
        requires
            self.wf(),
        ensures
            self@.contains_key(answer) == self.answer_seq().contains(answer),
    {
    }

    /// The block without any result.
    pub fn new() -> (block: Self)
        ensures
            block.wf(),
            block@ == Map::<Seq<char>, u64>::empty(),
            block.answer_seq().len() == 0,
    {
        BeaconResultsContentBlock { counts: OrderedMap::new() }
    }

    /// The block that holds the given results. Where an answer ID comes more than once, its
    /// last number of votes stays.
    pub fn from_iter(results: Vec<(String, u64)>) -> (block: Self)
        ensures
            block.wf(),
            block@ == results_map(results@),
    {
        let mut block = BeaconResultsContentBlock::new();
        let mut i: usize = 0;
        assert(results@.take(0) =~= Seq::<(String, u64)>::empty());
        while i < results.len()
            invariant
                0 <= i <= results@.len(),
                block.wf(),
                block@ == results_map(results@.take(i as int)),
            decreases results@.len() - i,
        {
            proof {
                assert(results@.take(i + 1).drop_last() =~= results@.take(i as int));
                assert(results@.take(i + 1).last() == results@[i as int]);
            }
            block.insert(results[i].0.as_str(), results[i].1);
            i = i + 1;
        }
        assert(results@.take(i as int) =~= results@);
        block
    }

    /// The number of votes of every answer of `tally`.
    pub fn from_tally(tally: &Tally) -> (block: Self)
        requires
            tally.wf(),
        ensures
            block.wf(),
            block@ == vote_counts(tally@),
    {
        let ghost answers = tally.answer_seq();
        let mut block = BeaconResultsContentBlock::new();
        let mut i: usize = 0;
        while i < tally.len()
            invariant
                tally.wf(),
                answers == tally.answer_seq(),
                0 <= i <= answers.len(),
                block.wf(),
                forall|a: Seq<char>|
                    block@.contains_key(a) <==> answers.take(i as int).contains(a),
                forall|a: Seq<char>| #[trigger]
                    block@.contains_key(a) ==> block@[a] == capped(tally@[a].len()),
            decreases answers.len() - i,
        {
            let voters = tally.voters(i).len();
            let count = match uint_from_usize(voters) {
                Some(count) => count,
                None => uint_max(),
            };
            let ghost before = block@;
            block.insert(tally.answer_id(i).as_str(), count);
            proof {
                tally.lemma_view_at(i as int);
                let shorter = answers.take(i as int);
                let longer = answers.take(i + 1);
                assert(longer =~= shorter.push(answers[i as int]));
                assert forall|a: Seq<char>| block@.contains_key(a) <==> longer.contains(a) by {
                    if longer.contains(a) {
                        let k = longer.index_of(a);
                        if k < i {
                            assert(shorter[k] == a);
                        }
                    }
                    if shorter.contains(a) {
                        let k = shorter.index_of(a);
                        assert(longer[k] == a);
                    }
                    if a == answers[i as int] {
                        assert(longer[i as int] == a);
                    }
                }
            }
            i = i + 1;
        }
        proof {
            assert(answers.take(i as int) =~= answers);
            assert forall|a: Seq<char>| block@.contains_key(a) == tally@.contains_key(a) by {}
            assert(block@ =~= vote_counts(tally@));
        }
        block
    }

    /// Sets the number of votes of `answer`.
    pub fn insert(&mut self, answer: &str, count: u64)
        requires
            old(self).wf(),
        ensures
            final(self).wf(),
            final(self)@ == old(self)@.insert(answer@, count),
    {
        self.counts.set(answer, count);
    }

    /// The number of answers the block has results for.
    pub fn len(&self) -> (n: usize)
        ensures
            n == self.answer_seq().len(),
    {
        self.counts.len()
    }

    /// Whether the block has no result.
    pub fn is_empty(&self) -> (b: bool)
        ensures
            b == (self.answer_seq().len() == 0),
    {
        self.counts.len() == 0
    }

    /// The number of votes of `answer`, if the block has a result for it.
    pub fn get(&self, answer: &str) -> (r: Option<u64>)
        requires
            self.wf(),
        ensures
            r == if self@.contains_key(answer@) {
                Some(self@[answer@])
            } else {
                None
            },
    {
        match self.counts.get(answer) {
            Some(count) => Some(*count),
            None => None,
        }
    }

    /// The ID of the answer listed at position `i`.
    pub fn answer_id(&self, i: usize) -> (id: &String)
        requires
            i < self.answer_seq().len(),
        ensures
            id@ == self.answer_seq()[i as int],
    {
        self.counts.key(i)
    }

    /// The number of votes of the answer listed at position `i`.
    pub fn count(&self, i: usize) -> (n: u64)
        requires
            i < self.count_seq().len(),
        ensures
            n == self.count_seq()[i as int],
    {
        *self.counts.value(i)
    }

    /// The results as a list of `(answer ID, number of votes)`, in ascending order of the
    /// answer IDs.
    pub fn to_vec(&self) -> (results: Vec<(String, u64)>)
        requires
            self.wf(),
        ensures
            result_views(results@) == self.entries(),
    {
        let mut results: Vec<(String, u64)> = Vec::new();
        let mut i: usize = 0;
        while i < self.counts.len()
            invariant
                self.wf(),
                0 <= i <= self.answer_seq().len(),
                result_views(results@) == self.entries().take(i as int),
            decreases self.answer_seq().len() - i,
        {
            let ghost before = result_views(results@);
            let id = self.counts.key(i).clone();
            let count = *self.counts.value(i);
            results.push((id, count));
            proof {
                assert(result_views(results@) =~= before.push((id@, count)));
                assert(self.entries().take(i + 1) =~= self.entries().take(i as int).push(
                    self.entries()[i as int],
                ));
            }
            i = i + 1;
        }
        assert(self.entries().take(i as int) =~= self.entries());
        results
    }

    /// Get these results sorted from the highest number of votes to the lowest.
    ///
    /// Returns a list of `(answer ID, number of votes)`. Answers with the same number of votes
    /// come in ascending order of their IDs.
    pub fn sorted(&self) -> (board: Vec<(&str, u64)>)
        requires
            self.wf(),
        ensures
            board@.len() == self.entries().len(),
            ranked(standing_views(board@)),
            standing_views(board@).to_set() == self.entries().to_set(),
            standing_views(board@).to_set() == count_entries(self@),
            standing_views(board@) == ranking(count_entries(self@)),
    {
        let ghost entries = self.entries();
        let mut board: Vec<(&str, u64)> = Vec::new();
        let mut n: usize = 0;
        proof {
            lemma_ascending_no_duplicates(self.answer_seq());
            assert(standing_views(board@) =~= Seq::<Standing>::empty());
            assert(entries.take(0) =~= Seq::<Standing>::empty());
            assert(standing_views(board@).to_set() =~= entries.take(0).to_set());
        }
        while n < self.counts.len()
            invariant
                self.wf(),
                entries == self.entries(),
                self.answer_seq().no_duplicates(),
                0 <= n <= entries.len(),
                board@.len() == n,
                ranked(standing_views(board@)),
                standing_views(board@).to_set() == entries.take(n as int).to_set(),
                standing_views(board@).no_duplicates(),
            decreases entries.len() - n,
        {
            let id: &str = self.counts.key(n).as_str();
            let count: u64 = *self.counts.value(n);
            let ghost before = standing_views(board@);
            let ghost entry: Standing = (id@, count);
            assert(entry == entries[n as int]);
            // Every answer on the board so far has a smaller ID than this one.
            assert forall|k: int| 0 <= k < before.len() implies lex_lt(
                (#[trigger] before[k]).0,
                entry.0,
            ) && before[k] != entry by {
                assert(before.to_set().contains(before[k]));
                assert(entries.take(n as int).contains(before[k]));
                let m = entries.take(n as int).index_of(before[k]);
                assert(entries[m] == before[k]);
                assert(lex_lt(self.answer_seq()[m], self.answer_seq()[n as int]));
                crate::text::lemma_lex_lt_irreflexive(entry.0);
            }
            let mut at: usize = 0;
            while at < board.len() && board[at].1 >= count
                invariant
                    0 <= at <= board@.len(),
                    before == standing_views(board@),
                    forall|k: int| 0 <= k < at ==> (#[trigger] before[k]).1 >= count,
                decreases board@.len() - at,
            {
                at = at + 1;
            }
            board.insert(at, (id, count));
            proof {
                let after = standing_views(board@);
                assert(after =~= before.insert(at as int, entry));
                assert forall|i: int, j: int| 0 <= i < j < after.len() implies ranks_before(
                    #[trigger] after[i],
                    #[trigger] after[j],
                ) by {
                    if j < at {
                        assert(after[i] == before[i] && after[j] == before[j]);
                    } else if j == at {
                        assert(after[i] == before[i]);
                    } else if i < at {
                        assert(after[i] == before[i] && after[j] == before[j - 1]);
                    } else if i == at {
                        assert(after[j] == before[j - 1]);
                        if j - 1 > at {
                            assert(ranks_before(before[at as int], before[j - 1]));
                        }
                    } else {
                        assert(after[i] == before[i - 1] && after[j] == before[j - 1]);
                    }
                }
                lemma_insert_to_set(before, at as int, entry);
                assert(entries.take(n + 1) =~= entries.take(n as int).push(entry));
                entries.take(n as int).lemma_push_to_set_commute(entry);
                assert forall|i: int, j: int|
                    0 <= i < after.len() && 0 <= j < after.len() && i != j implies after[i]
                    != after[j] by {
                    let bi = if i < at { i } else { i - 1 };
                    let bj = if j < at { j } else { j - 1 };
                    if i != at && j != at {
                        assert(after[i] == before[bi] && after[j] == before[bj]);
                    } else if i == at {
                        assert(after[j] == before[bj]);
                    } else {
                        assert(after[i] == before[bi]);
                    }
                }
            }
            n = n + 1;
        }
        proof {
            assert(entries.take(n as int) =~= entries);
            self.lemma_entries();
            theorem_ranking_is_unique(standing_views(board@), ranking(count_entries(self@)));
        }
        board
    }
}

/// The results of `v`, each with its answer ID as a sequence of characters.
pub open spec fn result_views(v: Seq<(String, u64)>) -> Seq<Standing> {
    v.map_values(|e: (String, u64)| (e.0@, e.1))
}

/// The map that a list of results stands for, a later entry replacing an earlier one of the
/// same answer.
pub open spec fn results_map(results: Seq<(String, u64)>) -> Map<Seq<char>, u64>
    decreases results.len(),
{
    if results.len() == 0 {
        Map::empty()
    } else {
        results_map(results.drop_last()).insert(results.last().0@, results.last().1)
    }
}

/// A leaderboard is fixed by what it holds: two ranked lists with the same entries are the same
/// list.
pub proof fn theorem_ranking_is_unique(a: Seq<Standing>, b: Seq<Standing>)
    requires
        ranked(a),
        ranked(b),
        a.to_set() == b.to_set(),
    ensures
        a == b,
    decreases a.len(),
{
    lemma_ranked_no_duplicates(a);
    lemma_ranked_no_duplicates(b);
    if a.len() == 0 {
        if b.len() > 0 {
            assert(b.to_set().contains(b[0]));
            assert(a.contains(b[0]));
        }
        assert(a =~= b);
    } else if b.len() == 0 {
        assert(a.to_set().contains(a[0]));
        assert(b.contains(a[0]));
    } else {
        assert(a.to_set().contains(a[0]));
        assert(b.contains(a[0]));
        let ib = b.index_of(a[0]);
        assert(b.to_set().contains(b[0]));
        assert(a.contains(b[0]));
        let ia = a.index_of(b[0]);
        if ib > 0 {
            assert(ranks_before(b[0], b[ib]));
            if ia > 0 {
                assert(ranks_before(a[0], a[ia]));
                lemma_ranks_before_asymmetric(a[0], b[0]);
            }
        }
        assert(a[0] == b[0]);
        let ta = a.drop_first();
        let tb = b.drop_first();
        assert(ranked(ta)) by {
            assert forall|i: int, j: int| 0 <= i < j < ta.len() implies ranks_before(
                #[trigger] ta[i],
                #[trigger] ta[j],
            ) by {
                assert(ta[i] == a[i + 1] && ta[j] == a[j + 1]);
            }
        }
        assert(ranked(tb)) by {
            assert forall|i: int, j: int| 0 <= i < j < tb.len() implies ranks_before(
                #[trigger] tb[i],
                #[trigger] tb[j],
            ) by {
                assert(tb[i] == b[i + 1] && tb[j] == b[j + 1]);
            }
        }
        assert(ta.to_set() =~= tb.to_set()) by {
            assert forall|x: Standing| ta.to_set().contains(x) == tb.to_set().contains(x) by {
                if ta.contains(x) {
                    let i = ta.index_of(x);
                    assert(a[i + 1] == x);
                    assert(a.to_set().contains(x));
                    assert(b.contains(x));
                    let j = b.index_of(x);
                    assert(j != 0);
                    assert(tb[j - 1] == x);
                }
                if tb.contains(x) {
                    let i = tb.index_of(x);
                    assert(b[i + 1] == x);
                    assert(b.to_set().contains(x));
                    assert(a.contains(x));
                    let j = a.index_of(x);
                    assert(j != 0);
                    assert(ta[j - 1] == x);
                }
            }
        }
        theorem_ranking_is_unique(ta, tb);
        assert(a =~= seq![a[0]] + ta);
        assert(b =~= seq![b[0]] + tb);
    }
}

/// Of two entries, at most one stands before the other.
pub proof fn lemma_ranks_before_asymmetric(a: Standing, b: Standing)
    requires
        ranks_before(a, b),
    ensures
        !ranks_before(b, a),
{
    if a.1 == b.1 && lex_lt(b.0, a.0) {
        crate::text::lemma_lex_lt_transitive(a.0, b.0, a.0);
        crate::text::lemma_lex_lt_irreflexive(a.0);
    }
}

/// A ranked list holds nothing twice.
pub proof fn lemma_ranked_no_duplicates(board: Seq<Standing>)
    requires
        ranked(board),
    ensures
        board.no_duplicates(),
{
    assert forall|i: int, j: int|
        0 <= i < board.len() && 0 <= j < board.len() && i != j implies board[i] != board[j] by {
        crate::text::lemma_lex_lt_irreflexive(board[i].0);
        if i < j {
            assert(ranks_before(board[i], board[j]));
        } else {
            assert(ranks_before(board[j], board[i]));
        }
    }
}

} // verus!

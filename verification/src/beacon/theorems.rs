//! What holds of every tally, whatever the beacon and the responses.

use vstd::prelude::*;

use crate::beacon::tally::{has_vote, Tally};
use crate::beacon::{
    counts, names_answer, standing_selections, tally_of, valid_selections, valid_under, Response,
    Rules,
};

verus! {

/// Valid selections are answers of the beacon that the response selected, and they are no more
/// than a response may select.
pub proof fn theorem_valid_selections_are_answers(
    answer_ids: Set<Seq<char>>,
    max_selections: nat,
    raw: Seq<Seq<char>>,
)
    ensures
        valid_selections(answer_ids, max_selections, raw).len() <= max_selections,
        valid_selections(answer_ids, max_selections, raw).len() <= raw.len(),
        forall|i: int|
            0 <= i < valid_selections(answer_ids, max_selections, raw).len() ==> {
                let id = #[trigger] valid_selections(answer_ids, max_selections, raw)[i];
                answer_ids.contains(id) && raw.contains(id)
            },
{
    let keep = names_answer(answer_ids);
    let named = raw.filter(keep);
    let valid = valid_selections(answer_ids, max_selections, raw);
    raw.lemma_filter_len(keep);
    assert forall|i: int| 0 <= i < valid.len() implies answer_ids.contains(#[trigger] valid[i])
        && raw.contains(valid[i]) by {
        assert(valid[i] == named[i]);
        raw.lemma_filter_pred(keep, i);
        assert(named.contains(named[i]));
        raw.lemma_filter_contains_rev(keep, named[i]);
    }
}

/// In the tally of `responses`, `sender` votes for exactly the answers of their standing
/// selections.
pub proof fn lemma_votes_are_standing_selections(
    rules: Rules,
    responses: Seq<Response>,
    answer: Seq<char>,
    sender: Seq<char>,
)
    ensures
        has_vote(tally_of(rules, responses), answer, sender) <==> standing_selections(
            rules,
            responses,
            sender,
        ).contains(answer),
{
    let tally = tally_of(rules, responses);
    if standing_selections(rules, responses, sender).contains(answer) {
        assert(tally.contains_key(answer));
    }
}

/// The response at position `at` stands for its sender if it counts and no later response of
/// the same sender does.
pub open spec fn stands(rules: Rules, responses: Seq<Response>, at: int) -> bool {
    &&& 0 <= at < responses.len()
    &&& counts(rules, responses[at])
    &&& forall|later: int|
        at < later < responses.len() ==> !(#[trigger] responses[later].sender
            == responses[at].sender && counts(rules, responses[later]))
}

/// The standing selections of a participant are the valid selections of their response that
/// stands.
pub proof fn lemma_standing_selections_at(rules: Rules, responses: Seq<Response>, at: int)
    requires
        stands(rules, responses, at),
    ensures
        standing_selections(rules, responses, responses[at].sender) == valid_under(
            rules,
            responses[at],
        ),
    decreases responses.len(),
{
    if at < responses.len() - 1 {
        let earlier = responses.drop_last();
        assert(responses.last() == responses[responses.len() - 1]);
        assert(forall|i: int| 0 <= i < earlier.len() ==> earlier[i] == responses[i]);
        assert(stands(rules, earlier, at));
        lemma_standing_selections_at(rules, earlier, at);
    }
}

/// Leaving out a response that does not count changes the standing selections of nobody.
pub proof fn lemma_skipped_response(
    rules: Rules,
    responses: Seq<Response>,
    at: int,
    sender: Seq<char>,
)
    requires
        0 <= at < responses.len(),
        !counts(rules, responses[at]),
    ensures
        standing_selections(rules, responses.remove(at), sender) == standing_selections(
            rules,
            responses,
            sender,
        ),
    decreases responses.len(),
{
    let earlier = responses.drop_last();
    if at == responses.len() - 1 {
        assert(responses.remove(at) =~= earlier);
    } else {
        assert(responses.remove(at).drop_last() =~= earlier.remove(at));
        assert(responses.remove(at).last() == responses.last());
        assert(earlier[at] == responses[at]);
        lemma_skipped_response(rules, earlier, at, sender);
    }
}

/// Compiling is a function of its inputs: two tallies of the same beacon, responses and cutoff
/// hold the same votes and list them in the same order.
pub proof fn theorem_compile_is_deterministic(
    first: Tally,
    second: Tally,
    rules: Rules,
    responses: Seq<Response>,
)
    requires
        first.wf(),
        first@ == tally_of(rules, responses),
        second.wf(),
        second@ == tally_of(rules, responses),
    ensures
        first@ == second@,
        first.answer_seq() == second.answer_seq(),
        forall|i: int|
            0 <= i < first.answer_seq().len() ==> (#[trigger] first.voter_seq()[i]).listing()
                == second.voter_seq()[i].listing(),
{
    Tally::lemma_same_view_same_listing(first, second);
}

/// Multiple selections count one by one: a response that stands and validly selects two
/// different answers makes its sender a voter of both.
pub proof fn theorem_every_selection_counts(
    rules: Rules,
    responses: Seq<Response>,
    at: int,
    one: Seq<char>,
    other: Seq<char>,
)
    requires
        stands(rules, responses, at),
        valid_under(rules, responses[at]).contains(one),
        valid_under(rules, responses[at]).contains(other),
        one != other,
    ensures
        has_vote(tally_of(rules, responses), one, responses[at].sender),
        has_vote(tally_of(rules, responses), other, responses[at].sender),
{
    lemma_standing_selections_at(rules, responses, at);
    lemma_votes_are_standing_selections(rules, responses, one, responses[at].sender);
    lemma_votes_are_standing_selections(rules, responses, other, responses[at].sender);
}

/// The last response wins: of two responses of one participant that count, with nothing from
/// that participant counting after the second, only the selections of the second are votes,
/// whatever the times at which the two were sent.
pub proof fn theorem_last_response_wins(
    rules: Rules,
    responses: Seq<Response>,
    first: int,
    last: int,
    answer: Seq<char>,
)
    requires
        0 <= first < last,
        counts(rules, responses[first]),
        responses[first].sender == responses[last].sender,
        stands(rules, responses, last),
    ensures
        has_vote(tally_of(rules, responses), answer, responses[last].sender) <==> valid_under(
            rules,
            responses[last],
        ).contains(answer),
{
    lemma_standing_selections_at(rules, responses, last);
    lemma_votes_are_standing_selections(rules, responses, answer, responses[last].sender);
}

/// A response sent after the cutoff gives no vote: the tally is the same without it.
pub proof fn theorem_late_response_is_ignored(
    rules: Rules,
    responses: Seq<Response>,
    at: int,
    end: u64,
)
    requires
        0 <= at < responses.len(),
        rules.cutoff == Some(end),
        responses[at].sent_at > end,
    ensures
        tally_of(rules, responses) == tally_of(rules, responses.remove(at)),
{
    let with = tally_of(rules, responses);
    let without = tally_of(rules, responses.remove(at));
    assert forall|sender: Seq<char>|
        standing_selections(rules, responses.remove(at), sender) == #[trigger] standing_selections(
            rules,
            responses,
            sender,
        ) by {
        lemma_skipped_response(rules, responses, at, sender);
    }
    assert forall|a: Seq<char>| with.contains_key(a) == without.contains_key(a) by {
        if with.contains_key(a) {
            let s = choose|s: Seq<char>| #[trigger]
                standing_selections(rules, responses, s).contains(a);
            lemma_skipped_response(rules, responses, at, s);
            assert(standing_selections(rules, responses.remove(at), s).contains(a));
        }
        if without.contains_key(a) {
            let s = choose|s: Seq<char>| #[trigger]
                standing_selections(rules, responses.remove(at), s).contains(a);
            lemma_skipped_response(rules, responses, at, s);
            assert(standing_selections(rules, responses, s).contains(a));
        }
    }
    assert forall|a: Seq<char>| with.contains_key(a) implies with[a] == without[a] by {
        assert(without.contains_key(a));
        assert forall|s: Seq<char>| with[a].contains(s) == without[a].contains(s) by {
            lemma_skipped_response(rules, responses, at, s);
        }
        assert(with[a] =~= without[a]);
    }
    assert(with =~= without);
}

/// An answer that no standing selection names is absent from the tally, and every answer of
/// the tally is an answer of the beacon.
pub proof fn theorem_tally_keys_are_answers(
    rules: Rules,
    responses: Seq<Response>,
    answer: Seq<char>,
)
    requires
        tally_of(rules, responses).contains_key(answer),
    ensures
        rules.answer_ids.contains(answer),
        tally_of(rules, responses)[answer] != Set::<Seq<char>>::empty(),
{
    let s = choose|s: Seq<char>| #[trigger]
        standing_selections(rules, responses, s).contains(answer);
    lemma_standing_selections_are_valid(rules, responses, s, answer);
    assert(tally_of(rules, responses)[answer].contains(s));
}

/// Every standing selection names an answer of the beacon.
pub proof fn lemma_standing_selections_are_valid(
    rules: Rules,
    responses: Seq<Response>,
    sender: Seq<char>,
    answer: Seq<char>,
)
    requires
        standing_selections(rules, responses, sender).contains(answer),
    ensures
        rules.answer_ids.contains(answer),
    decreases responses.len(),
{
    if responses.len() == 0 {
    } else if responses.last().sender == sender && counts(rules, responses.last()) {
        let valid = valid_under(rules, responses.last());
        let i = valid.index_of(answer);
        theorem_valid_selections_are_answers(
            rules.answer_ids,
            rules.max_selections,
            responses.last().selections,
        );
        assert(rules.answer_ids.contains(valid[i]));
    } else {
        lemma_standing_selections_are_valid(rules, responses.drop_last(), sender, answer);
    }
}

} // verus!

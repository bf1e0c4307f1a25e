//! Beacons: a question with a bounded list of answers, the responses of the participants, and
//! the results compiled from them.
//!
//! A response counts when it was sent no later than the cutoff, if there is one, and selects at
//! least one answer of the beacon. Of the responses of one participant that count, the one
//! processed last stands; a participant votes for every answer of their standing response.

use vstd::prelude::*;

pub mod beacon;
pub mod end;
pub mod response;
pub mod start;
pub mod tally;
pub mod theorems;
pub mod unstable_end;
pub mod unstable_response;
pub mod unstable_start;

use crate::beacon::end::{standing_views, Standing};
use crate::beacon::start::BeaconContentBlock;
use crate::beacon::unstable_start::UnstableBeaconStartContentBlock;
use crate::beacon::tally::{has_vote, Tally};
use crate::ordered::{lemma_ascending_no_duplicates, views, OrderedMap, StringSet};
use crate::text::{decimal, decimal_string, str_eq};

verus! {

/// The data from a beacon response necessary to compile beacon results.
#[derive(Clone, Copy, Debug)]
pub struct BeaconResponseData<'a> {
    /// The sender of the response.
    pub sender: &'a str,
    /// The time of creation of the response on the originating server, in milliseconds since
    /// the Unix epoch.
    pub origin_server_ts: u64,
    /// The selections of the response, as they were sent.
    pub selections: &'a [String],
}

/// A response, as the rules of this module see it.
pub struct Response {
    /// Who sent it.
    pub sender: Seq<char>,
    /// When it was sent, in milliseconds since the Unix epoch.
    pub sent_at: u64,
    /// The answers it names, in its own order.
    pub selections: Seq<Seq<char>>,
}

impl<'a> View for BeaconResponseData<'a> {
    type V = Response;

    open spec fn view(&self) -> Response {
        Response {
            sender: self.sender@,
            sent_at: self.origin_server_ts,
            selections: views(self.selections@),
        }
    }
}

/// The responses of `rs`, each as the rules see it.
pub open spec fn response_views(rs: Seq<BeaconResponseData>) -> Seq<Response> {
    rs.map_values(|r: BeaconResponseData| r@)
}

/// The string slices of `v`, each as its sequence of characters.
pub open spec fn str_views(v: Seq<&str>) -> Seq<Seq<char>> {
    v.map_values(|s: &str| s@)
}

/// What decides which responses count: the answers of the beacon, how many of them one response
/// may select, and the time after which responses are ignored.
pub struct Rules {
    /// The identifiers of the answers.
    pub answer_ids: Set<Seq<char>>,
    /// The largest number of answers that one response may select.
    pub max_selections: nat,
    /// The time after which a response is ignored, if any.
    pub cutoff: Option<u64>,
}

/// The test that keeps the selections that name an answer.
pub open spec fn names_answer(answer_ids: Set<Seq<char>>) -> spec_fn(Seq<char>) -> bool {
    |s: Seq<char>| answer_ids.contains(s)
}

/// The first `max` elements of `s`, or all of it if it has no more.
pub open spec fn cut<A>(s: Seq<A>, max: nat) -> Seq<A> {
    if s.len() <= max {
        s
    } else {
        s.take(max as int)
    }
}

/// The valid selections of a response: those that name an answer, in the order in which they
/// were sent and as often as they were sent, cut to the first `max_selections`.
pub open spec fn valid_selections(
    answer_ids: Set<Seq<char>>,
    max_selections: nat,
    raw: Seq<Seq<char>>,
) -> Seq<Seq<char>> {
    cut(raw.filter(names_answer(answer_ids)), max_selections)
}

/// Validate the selections of a response.
///
/// Returns the valid selections, or `None` if there is none.
pub fn validate_selections<'a>(
    answer_ids: &StringSet,
    max_selections: u64,
    selections: &'a [String],
) -> (r: Option<Vec<&'a str>>)
    requires
        answer_ids.wf(),
    ensures
        match r {
            Some(v) => v@.len() > 0 && str_views(v@) == valid_selections(
                answer_ids@,
                max_selections as nat,
                views(selections@),
            ),
            None => valid_selections(answer_ids@, max_selections as nat, views(selections@)).len()
                == 0,
        },
        r matches Some(v) ==> v@.len() <= max_selections && v@.len() <= selections@.len()
            && forall|i: int| 0 <= i < v@.len() ==> answer_ids@.contains(#[trigger] v@[i]@),
{
    let ghost raw = views(selections@);
    let ghost keep = names_answer(answer_ids@);
    let mut out: Vec<&'a str> = Vec::new();
    let mut i: usize = 0;
    assert(raw.take(0) =~= Seq::<Seq<char>>::empty());
    assert(str_views(out@) =~= Seq::<Seq<char>>::empty());
    while i < selections.len() && (out.len() as u64) < max_selections
        invariant
            raw == views(selections@),
            keep == names_answer(answer_ids@),
            answer_ids.wf(),
            0 <= i <= selections@.len(),
            str_views(out@) == raw.take(i as int).filter(keep),
            out@.len() <= max_selections,
            out@.len() <= i,
            forall|j: int| 0 <= j < out@.len() ==> answer_ids@.contains(#[trigger] out@[j]@),
        decreases selections@.len() - i,
    {
        let s: &'a str = selections[i].as_str();
        proof {
            assert(raw.take(i + 1) =~= raw.take(i as int).push(raw[i as int]));
            raw.take(i as int).lemma_filter_push(raw[i as int], keep);
        }
        if answer_ids.contains(s) {
            out.push(s);
            assert(str_views(out@) =~= raw.take(i as int).filter(keep).push(s@));
        }
        i = i + 1;
    }
    proof {
        let done = raw.take(i as int).filter(keep);
        let rest = raw.skip(i as int).filter(keep);
        assert(raw =~= raw.take(i as int) + raw.skip(i as int));
        Seq::filter_distributes_over_add(raw.take(i as int), raw.skip(i as int), keep);
        assert(raw.filter(keep) == done + rest);
        if i < selections@.len() {
            assert(done.len() == max_selections);
            assert((done + rest).take(max_selections as int) =~= done);
        } else {
            assert(raw.skip(i as int) =~= Seq::<Seq<char>>::empty());
            assert(done + rest =~= done);
        }
        assert(str_views(out@) == valid_selections(answer_ids@, max_selections as nat, raw));
    }
    if out.len() == 0 {
        None
    } else {
        Some(out)
    }
}

/// The valid selections of `r` under `rules`.
pub open spec fn valid_under(rules: Rules, r: Response) -> Seq<Seq<char>> {
    valid_selections(rules.answer_ids, rules.max_selections, r.selections)
}

/// Whether `r` counts: it was sent no later than the cutoff, if there is one, and it has a
/// valid selection.
pub open spec fn counts(rules: Rules, r: Response) -> bool {
    &&& rules.cutoff matches Some(end) ==> r.sent_at <= end
    &&& valid_under(rules, r).len() > 0
}

/// The selections that stand for `sender` once `responses` have been processed in their order:
/// the valid selections of the last response of `sender` that counts, and none if no response
/// of `sender` counts.
pub open spec fn standing_selections(
    rules: Rules,
    responses: Seq<Response>,
    sender: Seq<char>,
) -> Seq<Seq<char>>
    decreases responses.len(),
{
    if responses.len() == 0 {
        Seq::empty()
    } else if responses.last().sender == sender && counts(rules, responses.last()) {
        valid_under(rules, responses.last())
    } else {
        standing_selections(rules, responses.drop_last(), sender)
    }
}

/// The participants who vote for `answer`: those whose standing selections name it.
pub open spec fn voters_of(rules: Rules, responses: Seq<Response>, answer: Seq<char>) -> Set<
    Seq<char>,
> {
    Set::new(|sender: Seq<char>| standing_selections(rules, responses, sender).contains(answer))
}

/// The tally of `responses`: every answer that has a voter, with its voters.
pub open spec fn tally_of(rules: Rules, responses: Seq<Response>) -> Map<Seq<char>, Set<Seq<char>>> {
    Map::new(
        |answer: Seq<char>|
            exists|sender: Seq<char>| #[trigger]
                standing_selections(rules, responses, sender).contains(answer),
        |answer: Seq<char>| voters_of(rules, responses, answer),
    )
}

/// Whether the standing selections of every participant are those that `users_selections`
/// holds: an entry for each participant with a response that counts, and no other.
pub open spec fn holds_standing_selections(
    users_selections: Map<Seq<char>, Vec<&str>>,
    rules: Rules,
    responses: Seq<Response>,
) -> bool {
    forall|sender: Seq<char>|
        {
            let standing = #[trigger] standing_selections(rules, responses, sender);
            if users_selections.contains_key(sender) {
                standing.len() > 0 && str_views(users_selections[sender]@) == standing
            } else {
                standing.len() == 0
            }
        }
}

/// Goes through `responses` in their order and keeps, for each participant, the valid
/// selections of their last response that counts.
pub fn filter_selections<'a>(
    answer_ids: &StringSet,
    max_selections: u64,
    responses: &[BeaconResponseData<'a>],
    end_timestamp: Option<u64>,
) -> (users_selections: OrderedMap<Vec<&'a str>>)
    requires
        answer_ids.wf(),
    ensures
        users_selections.wf(),
        holds_standing_selections(
            users_selections.model(),
            Rules {
                answer_ids: answer_ids@,
                max_selections: max_selections as nat,
                cutoff: end_timestamp,
            },
            response_views(responses@),
        ),
{
    let ghost rules = Rules {
        answer_ids: answer_ids@,
        max_selections: max_selections as nat,
        cutoff: end_timestamp,
    };
    let ghost all = response_views(responses@);
    let mut users_selections: OrderedMap<Vec<&'a str>> = OrderedMap::new();
    let mut i: usize = 0;
    assert(all.take(0) =~= Seq::<Response>::empty());
    while i < responses.len()
        invariant
            answer_ids.wf(),
            rules == (Rules {
                answer_ids: answer_ids@,
                max_selections: max_selections as nat,
                cutoff: end_timestamp,
            }),
            all == response_views(responses@),
            0 <= i <= responses@.len(),
            users_selections.wf(),
            holds_standing_selections(users_selections.model(), rules, all.take(i as int)),
        decreases responses@.len() - i,
    {
        let data = responses[i];
        let ghost before = all.take(i as int);
        let ghost after = all.take(i + 1);
        proof {
            assert(after.drop_last() =~= before);
            assert(after.last() == data@);
        }
        let in_time = match end_timestamp {
            Some(end) => data.origin_server_ts <= end,
            None => true,
        };
        if in_time {
            match validate_selections(answer_ids, max_selections, data.selections) {
                Some(selections) => {
                    users_selections.set(data.sender, selections);
                    proof {
                        assert(counts(rules, data@));
                        assert forall|sender: Seq<char>|
                            {
                                let standing = #[trigger] standing_selections(rules, after, sender);
                                if users_selections.model().contains_key(sender) {
                                    standing.len() > 0 && str_views(
                                        users_selections.model()[sender]@,
                                    ) == standing
                                } else {
                                    standing.len() == 0
                                }
                            } by {
                            if sender != data.sender@ {
                                assert(standing_selections(rules, after, sender)
                                    == standing_selections(rules, before, sender));
                            }
                        }
                    }
                },
                None => {
                    proof {
                        assert(!counts(rules, data@));
                        assert forall|sender: Seq<char>|
                            #[trigger] standing_selections(rules, after, sender)
                                == standing_selections(rules, before, sender) by {}
                    }
                },
            }
        } else {
            proof {
                assert(!counts(rules, data@));
                assert forall|sender: Seq<char>|
                    #[trigger] standing_selections(rules, after, sender) == standing_selections(
                        rules,
                        before,
                        sender,
                    ) by {}
            }
        }
        i = i + 1;
    }
    assert(all.take(i as int) =~= all);
    users_selections
}

/// Whether the votes of `tally` are those of `users_selections`: each participant votes for
/// the answers of their selections, and nobody else votes.
pub open spec fn holds_votes_of(
    tally: Map<Seq<char>, Set<Seq<char>>>,
    users_selections: Map<Seq<char>, Vec<&str>>,
) -> bool {
    forall|answer: Seq<char>, sender: Seq<char>| #[trigger]
        has_vote(tally, answer, sender) <==> users_selections.contains_key(sender) && str_views(
            users_selections[sender]@,
        ).contains(answer)
}

/// The votes cast by the first `i` listed participants, and by the first `j` selections of the
/// participant listed next.
spec fn voted_within(
    senders: Seq<Seq<char>>,
    selections: Seq<Vec<&str>>,
    i: int,
    j: int,
    answer: Seq<char>,
    sender: Seq<char>,
) -> bool {
    senders.contains(sender) && {
        let k = senders.index_of(sender);
        (k < i && str_views(selections[k]@).contains(answer)) || (k == i && str_views(
            selections[k]@,
        ).take(j).contains(answer))
    }
}

/// Aggregate the given selections by answer.
pub fn aggregate_results<'a>(users_selections: &OrderedMap<Vec<&'a str>>) -> (tally: Tally)
    requires
        users_selections.wf(),
    ensures
        tally.wf(),
        holds_votes_of(tally@, users_selections.model()),
{
    let ghost senders = users_selections.key_seq();
    let ghost selections = users_selections.value_seq();
    let mut tally = Tally::new();
    let mut i: usize = 0;
    proof {
        lemma_ascending_no_duplicates(senders);
    }
    while i < users_selections.len()
        invariant
            users_selections.wf(),
            senders == users_selections.key_seq(),
            selections == users_selections.value_seq(),
            senders.no_duplicates(),
            0 <= i <= senders.len(),
            tally.wf(),
            forall|a: Seq<char>, s: Seq<char>| #[trigger]
                has_vote(tally@, a, s) <==> voted_within(senders, selections, i as int, 0, a, s),
        decreases senders.len() - i,
    {
        let sender = users_selections.key(i);
        let chosen = users_selections.value(i);
        let ghost chosen_views = str_views(chosen@);
        let mut j: usize = 0;
        proof {
            assert(senders.contains(senders[i as int]));
            assert(senders.index_of(senders[i as int]) == i);
            assert(chosen_views.take(0) =~= Seq::<Seq<char>>::empty());
        }
        while j < chosen.len()
            invariant
                senders == users_selections.key_seq(),
                selections == users_selections.value_seq(),
                senders.no_duplicates(),
                0 <= i < senders.len(),
                senders.len() == selections.len(),
                sender@ == senders[i as int],
                *chosen == selections[i as int],
                chosen_views == str_views(chosen@),
                0 <= j <= chosen@.len(),
                tally.wf(),
                forall|a: Seq<char>, s: Seq<char>| #[trigger]
                    has_vote(tally@, a, s) <==> voted_within(
                        senders,
                        selections,
                        i as int,
                        j as int,
                        a,
                        s,
                    ),
            decreases chosen@.len() - j,
        {
            let ghost before = tally@;
            tally.add_vote(chosen[j], sender.as_str());
            proof {
                assert(senders.contains(senders[i as int]));
                assert(senders.index_of(senders[i as int]) == i);
                assert(chosen_views.take(j + 1) =~= chosen_views.take(j as int).push(
                    chosen_views[j as int],
                ));
                assert forall|a: Seq<char>, s: Seq<char>| #[trigger]
                    has_vote(tally@, a, s) <==> voted_within(
                        senders,
                        selections,
                        i as int,
                        j + 1,
                        a,
                        s,
                    ) by {
                    assert(has_vote(before, a, s) <==> voted_within(
                        senders,
                        selections,
                        i as int,
                        j as int,
                        a,
                        s,
                    ));
                    let shorter = chosen_views.take(j as int);
                    let longer = chosen_views.take(j + 1);
                    if longer.contains(a) {
                        let k = longer.index_of(a);
                        if k < j {
                            assert(shorter[k] == a);
                        }
                    }
                    if shorter.contains(a) {
                        let k = shorter.index_of(a);
                        assert(longer[k] == a);
                    }
                    if a == chosen_views[j as int] {
                        assert(chosen_views.take(j + 1)[j as int] == a);
                    }
                }
            }
            j = j + 1;
        }
        proof {
            assert(chosen_views.take(j as int) =~= chosen_views);
            assert forall|a: Seq<char>, s: Seq<char>| #[trigger]
                has_vote(tally@, a, s) <==> voted_within(senders, selections, i + 1, 0, a, s) by {
                assert(has_vote(tally@, a, s) <==> voted_within(
                    senders,
                    selections,
                    i as int,
                    j as int,
                    a,
                    s,
                ));
                if senders.contains(s) {
                    let k = senders.index_of(s);
                    if k == i + 1 {
                        assert(str_views(selections[k]@).take(0) =~= Seq::<Seq<char>>::empty());
                    }
                }
            }
        }
        i = i + 1;
    }
    proof {
        assert forall|a: Seq<char>, s: Seq<char>| #[trigger]
            has_vote(tally@, a, s) <==> users_selections.model().contains_key(s) && str_views(
                users_selections.model()[s]@,
            ).contains(a) by {
            assert(has_vote(tally@, a, s) <==> voted_within(
                senders,
                selections,
                i as int,
                0,
                a,
                s,
            ));
        }
    }
    tally
}

/// A tally that holds the votes of the standing selections is the tally of the responses.
proof fn lemma_tally_of_votes(
    tally: Tally,
    users_selections: Map<Seq<char>, Vec<&str>>,
    rules: Rules,
    responses: Seq<Response>,
)
    requires
        tally.wf(),
        holds_votes_of(tally@, users_selections),
        holds_standing_selections(users_selections, rules, responses),
    ensures
        tally@ == tally_of(rules, responses),
{
    let expected = tally_of(rules, responses);
    assert forall|a: Seq<char>, s: Seq<char>|
        has_vote(tally@, a, s) <==> standing_selections(rules, responses, s).contains(a) by {
        let standing = standing_selections(rules, responses, s);
        assert(users_selections.contains_key(s) ==> str_views(users_selections[s]@) == standing);
        assert(has_vote(tally@, a, s) <==> users_selections.contains_key(s) && str_views(
            users_selections[s]@,
        ).contains(a));
    }
    assert forall|a: Seq<char>| tally@.contains_key(a) == expected.contains_key(a) by {
        if tally@.contains_key(a) {
            tally.lemma_no_empty_answer(a);
            let s = choose|s: Seq<char>| has_vote(tally@, a, s);
            assert(standing_selections(rules, responses, s).contains(a));
        }
        if expected.contains_key(a) {
            let s = choose|s: Seq<char>| #[trigger]
                standing_selections(rules, responses, s).contains(a);
            assert(has_vote(tally@, a, s));
        }
    }
    assert forall|a: Seq<char>| tally@.contains_key(a) implies tally@[a] == expected[a] by {
        assert(expected.contains_key(a));
        assert(expected[a] == voters_of(rules, responses, a));
        assert forall|s: Seq<char>| tally@[a].contains(s) == expected[a].contains(s) by {
            assert(has_vote(tally@, a, s) <==> standing_selections(rules, responses, s).contains(
                a,
            ));
        }
        assert(tally@[a] =~= expected[a]);
    }
    assert(tally@ =~= expected);
}

/// Compiles the tally of `responses` for a beacon with the answers `answer_ids`, of which one
/// response may select `max_selections`.
///
/// The responses are processed in the order given. A response sent after `cutoff` is ignored;
/// without a cutoff, none is ignored for its time. The result depends on nothing but the
/// arguments.
pub fn compile<'a>(
    answer_ids: &StringSet,
    max_selections: u64,
    responses: &[BeaconResponseData<'a>],
    cutoff: Option<u64>,
) -> (tally: Tally)
    requires
        answer_ids.wf(),
    ensures
        tally.wf(),
        tally@ == tally_of(
            Rules { answer_ids: answer_ids@, max_selections: max_selections as nat, cutoff },
            response_views(responses@),
        ),
{
    let users_selections = filter_selections(answer_ids, max_selections, responses, cutoff);
    let tally = aggregate_results(&users_selections);
    proof {
        lemma_tally_of_votes(
            tally,
            users_selections.model(),
            Rules { answer_ids: answer_ids@, max_selections: max_selections as nat, cutoff },
            response_views(responses@),
        );
    }
    tally
}

/// Generate the current results with the given beacon and responses.
///
/// If the `end_timestamp` is provided, any response with an `origin_server_ts` after that
/// timestamp is ignored. If it is not provided, no response is ignored for its time.
///
/// This method will handle invalid responses, or several response from the same user so all
/// responses to the beacon should be provided, in the order in which they are to count.
///
/// Returns a map of answer ID to a set of user IDs that voted for them.
pub fn compile_beacon_results<'a>(
    beacon: &BeaconContentBlock,
    responses: &[BeaconResponseData<'a>],
    end_timestamp: Option<u64>,
) -> (tally: Tally)
    ensures
        tally.wf(),
        tally@ == tally_of(beacon.rules(end_timestamp), response_views(responses@)),
{
    let answer_ids = beacon.answer_id_set();
    compile(&answer_ids, beacon.max_selections, responses, end_timestamp)
}

/// Generate the current results with the given unstable beacon and responses.
///
/// If the `end_timestamp` is provided, any response with an `origin_server_ts` after that
/// timestamp is ignored. If it is not provided, no response is ignored for its time.
///
/// This method will handle invalid responses, or several response from the same user so all
/// responses to the beacon should be provided, in the order in which they are to count.
///
/// Returns a map of answer ID to a set of user IDs that voted for them.
pub fn compile_unstable_beacon_results<'a>(
    beacon: &UnstableBeaconStartContentBlock,
    responses: &[BeaconResponseData<'a>],
    end_timestamp: Option<u64>,
) -> (tally: Tally)
    ensures
        tally.wf(),
        tally@ == tally_of(beacon.rules(end_timestamp), response_views(responses@)),
{
    let answer_ids = beacon.answer_id_set();
    compile(&answer_ids, beacon.max_selections, responses, end_timestamp)
}

/// An answer ID with the text that stands for the answer.
pub type Label = (Seq<char>, Seq<char>);

/// The pairs of `v`, each string as its sequence of characters.
pub open spec fn label_views(v: Seq<(&str, &str)>) -> Seq<Label> {
    v.map_values(|e: (&str, &str)| (e.0@, e.1@))
}

/// The text that stands for the answer `id`: that of the first of `answers` with this ID, and
/// the ID itself where `answers` has none.
pub open spec fn label_of(answers: Seq<Label>, id: Seq<char>) -> Seq<char>
    decreases answers.len(),
{
    if answers.len() == 0 {
        id
    } else if answers[0].0 == id {
        answers[0].1
    } else {
        label_of(answers.drop_first(), id)
    }
}

/// The line of one result: the text of the answer, a colon, and the number of votes.
pub open spec fn result_line(answers: Seq<Label>, result: Standing) -> Seq<char> {
    label_of(answers, result.0) + ": "@ + decimal(result.1 as nat) + " vote(s)"@
}

/// The fallback text of `results`: their lines in the order given, with a line feed between
/// one line and the next. Without results it is empty.
pub open spec fn fallback_text(answers: Seq<Label>, results: Seq<Standing>) -> Seq<char>
    decreases results.len(),
{
    if results.len() == 0 {
        Seq::empty()
    } else if results.len() == 1 {
        result_line(answers, results[0])
    } else {
        fallback_text(answers, results.drop_last()) + "\n"@ + result_line(answers, results.last())
    }
}

/// The text that stands for the answer `id`.
pub fn find_label<'a>(answers: &[(&'a str, &'a str)], id: &'a str) -> (label: &'a str)
    ensures
        label@ == label_of(label_views(answers@), id@),
{
    let ghost all = label_views(answers@);
    let mut k: usize = 0;
    assert(all.skip(0) =~= all);
    while k < answers.len()
        invariant
            all == label_views(answers@),
            0 <= k <= answers@.len(),
            label_of(all, id@) == label_of(all.skip(k as int), id@),
        decreases answers@.len() - k,
    {
        assert(all.skip(k as int)[0] == all[k as int]);
        if str_eq(answers[k].0, id) {
            return answers[k].1;
        }
        assert(all.skip(k as int).drop_first() =~= all.skip(k + 1));
        k = k + 1;
    }
    id
}

/// Generate the fallback text representation of a beacon end event.
///
/// `answers` is a list of `(answer ID, answer plain text representation)` and `results` is a
/// list of `(answer ID, count)`. Every result gets its line, in the order given, whatever its
/// count; an answer that `answers` does not hold is called by its ID.
pub fn generate_beacon_end_fallback_text<'a>(
    answers: &[(&'a str, &'a str)],
    results: &[(&'a str, u64)],
) -> (text: String)
    ensures
        text@ == fallback_text(label_views(answers@), standing_views(results@)),
{
    let ghost labels = label_views(answers@);
    let ghost all = standing_views(results@);
    let mut text = String::new();
    let mut i: usize = 0;
    assert(all.take(0) =~= Seq::<Standing>::empty());
    while i < results.len()
        invariant
            labels == label_views(answers@),
            all == standing_views(results@),
            0 <= i <= results@.len(),
            text@ == fallback_text(labels, all.take(i as int)),
        decreases results@.len() - i,
    {
        let ghost before = text@;
        let ghost line = result_line(labels, all[i as int]);
        proof {
            assert(all.take(i + 1).drop_last() =~= all.take(i as int));
            assert(all.take(i + 1).last() == all[i as int]);
            if i == 1 {
                assert(all.take(1)[0] == all[0]);
            }
        }
        if i > 0 {
            text.append("\n");
        }
        let ghost start = text@;
        text.append(find_label(answers, results[i].0));
        text.append(": ");
        let count = decimal_string(results[i].1);
        text.append(count.as_str());
        text.append(" vote(s)");
        proof {
            assert(text@ =~= start + line);
            if i == 0 {
                assert(before =~= Seq::<char>::empty());
                assert(start + line =~= line);
                assert(all.take(1)[0] == all[0]);
            }
        }
        i = i + 1;
    }
    assert(all.take(i as int) =~= all);
    text
}

} // verus!

//! Types for the `m.beacon.start` event.

use vstd::prelude::*;

use crate::beacon::end::{
    count_entries, ranking, vote_counts, BeaconEndEventContent, BeaconResultsContentBlock,
};
use crate::beacon::{
    compile_beacon_results, fallback_text, generate_beacon_end_fallback_text, label_views,
    response_views, tally_of, BeaconResponseData, Label, Response, Rules,
};
use crate::message::TextContentBlock;
use crate::ordered::StringSet;
use crate::relation::Relation;

verus! {

/// The payload for a beacon start event.
#[derive(Clone, Debug)]
pub struct BeaconStartEventContent {
    /// The beacon content of the message.
    pub beacon: BeaconContentBlock,
    /// Text representation of the message, for clients that don't support beacons.
    pub text: TextContentBlock,
    /// Information about related messages.
    pub relates_to: Option<Relation<BeaconStartEventContentWithoutRelation>>,
}

/// Form of [`BeaconStartEventContent`] without relation.
#[derive(Clone, Debug)]
pub struct BeaconStartEventContentWithoutRelation {
    /// The beacon content of the message.
    pub beacon: BeaconContentBlock,
    /// Text representation of the message, for clients that don't support beacons.
    pub text: TextContentBlock,
}

impl BeaconStartEventContent {
    /// Creates a new `BeaconStartEventContent` with the given fallback representation and beacon
    /// content.
    pub fn new(text: TextContentBlock, beacon: BeaconContentBlock) -> (content: Self)
        ensures
            content.beacon == beacon,
            content.text == text,
            content.relates_to is None,
    {
        BeaconStartEventContent { beacon, text, relates_to: None }
    }

    /// Creates a new `BeaconStartEventContent` with the given plain text fallback
    /// representation and beacon content.
    pub fn with_plain_text(plain_text: String, beacon: BeaconContentBlock) -> (content: Self)
        ensures
            content.beacon == beacon,
            content.text.plain_text() == Some(plain_text@),
            content.text@.len() == 1,
            content.relates_to is None,
    {
        Self::new(TextContentBlock::plain(plain_text), beacon)
    }
}

/// A beacon start event as it comes from a sync, where the room is known from the context.
#[derive(Clone, Debug)]
pub struct OriginalSyncBeaconStartEvent {
    /// Data specific to the event type.
    pub content: BeaconStartEventContent,
    /// The globally unique identifier of the event.
    pub event_id: String,
    /// The fully-qualified ID of the user who sent this event.
    pub sender: String,
    /// Timestamp on the originating homeserver when this event was sent, in milliseconds since
    /// the Unix epoch.
    pub origin_server_ts: u64,
}

impl OriginalSyncBeaconStartEvent {
    /// Whether `end` is the end of this beacon as `responses` decide it, with the responses
    /// sent after `now` left out: it refers to this event, holds the number of votes of every
    /// answer that has votes, and says them in its text, one line per answer, from the highest
    /// number of votes to the lowest.
    pub open spec fn is_end_at(
        &self,
        responses: Seq<Response>,
        now: u64,
        end: BeaconEndEventContent,
    ) -> bool {
        let counts = vote_counts(tally_of(self.content.beacon.rules(Some(now)), responses));
        &&& end.relates_to.event_id@ == self.event_id@
        &&& end.beacon_results matches Some(block) && block.wf() && block@ == counts
        &&& end.text.plain_text() == Some(
            fallback_text(
                answer_labels(self.content.beacon.answers@),
                ranking(count_entries(counts)),
            ),
        )
        &&& end.text@.len() == 1
    }

    /// Compile the results for this beacon with the given response into a
    /// `BeaconEndEventContent`.
    ///
    /// It generates a default text representation of the results in English. Responses sent
    /// after the time at which this is called are left out.
    pub fn compile_results<'a>(&'a self, responses: &[BeaconResponseData<'a>]) -> (end:
        BeaconEndEventContent)
        ensures
            exists|now: u64|
                now <= crate::uint::MAX_SAFE_UINT && self.is_end_at(
                    response_views(responses@),
                    now,
                    end,
                ),
    {
        let now = crate::time::now();
        let end = self.compile_results_at(responses, now);
        assert(now <= crate::uint::MAX_SAFE_UINT && self.is_end_at(
            response_views(responses@),
            now,
            end,
        ));
        end
    }

    /// Compile the results for this beacon as of `now`, in milliseconds since the Unix epoch.
    pub fn compile_results_at<'a>(&'a self, responses: &[BeaconResponseData<'a>], now: u64) -> (end:
        BeaconEndEventContent)
        ensures
            self.is_end_at(response_views(responses@), now, end),
    {
        let full_results = compile_beacon_results(&self.content.beacon, responses, Some(now));
        let beacon_results = BeaconResultsContentBlock::from_tally(&full_results);
        let answers = self.content.beacon.labels();
        let results = beacon_results.sorted();
        let plain_text = generate_beacon_end_fallback_text(answers.as_slice(), results.as_slice());
        let mut end = BeaconEndEventContent::with_plain_text(plain_text, self.event_id.clone());
        end.beacon_results = Some(beacon_results);
        end
    }
}

/// The ID of an answer with the text that stands for it: its plain text, and its ID where it
/// has no plain text.
pub open spec fn answer_label(answer: BeaconAnswer) -> Label {
    (
        answer.id@,
        match answer.text.plain_text() {
            Some(text) => text,
            None => answer.id@,
        },
    )
}

/// The labels of `answers`, in their order.
pub open spec fn answer_labels(answers: Seq<BeaconAnswer>) -> Seq<Label> {
    answers.map_values(|a: BeaconAnswer| answer_label(a))
}

/// A block for beacon content.
#[derive(Clone, Debug)]
pub struct BeaconContentBlock {
    /// The question of the beacon.
    pub question: BeaconQuestion,
    /// The kind of the beacon.
    pub kind: BeaconKind,
    /// The maximum number of responses a user is able to select.
    ///
    /// Must be greater or equal to `1`.
    ///
    /// Defaults to `1`.
    pub max_selections: u64,
    /// The possible answers to the beacon.
    pub answers: BeaconAnswers,
}

impl BeaconContentBlock {
    /// The IDs of the answers.
    pub open spec fn answer_ids(&self) -> Set<Seq<char>> {
        answer_id_seq(self.answers@).to_set()
    }

    /// The rules by which the responses to this beacon count, with the given cutoff.
    pub open spec fn rules(&self, cutoff: Option<u64>) -> Rules {
        Rules {
            answer_ids: self.answer_ids(),
            max_selections: self.max_selections as nat,
            cutoff,
        }
    }

    /// The ID of every answer with the text that stands for it.
    pub fn labels(&self) -> (labels: Vec<(&str, &str)>)
        ensures
            label_views(labels@) == answer_labels(self.answers@),
    {
        let mut labels: Vec<(&str, &str)> = Vec::new();
        let mut i: usize = 0;
        while i < self.answers.len()
            invariant
                0 <= i <= self.answers@.len(),
                label_views(labels@) == answer_labels(self.answers@.take(i as int)),
            decreases self.answers@.len() - i,
        {
            let answer = self.answers.get(i);
            let text = match answer.text.find_plain() {
                Some(text) => text,
                None => answer.id.as_str(),
            };
            let ghost before = labels@;
            labels.push((answer.id.as_str(), text));
            proof {
                let shorter = self.answers@.take(i as int);
                let longer = self.answers@.take(i + 1);
                assert(longer =~= shorter.push(*answer));
                assert(label_views(labels@) =~= label_views(before).push(answer_label(*answer)));
                assert(answer_labels(longer) =~= answer_labels(shorter).push(
                    answer_label(*answer),
                ));
            }
            i = i + 1;
        }
        assert(self.answers@.take(i as int) =~= self.answers@);
        labels
    }

    /// Creates a new `BeaconContentBlock` with the given question and answers.
    pub fn new(question: TextContentBlock, answers: BeaconAnswers) -> (block: Self)
        ensures
            block.question.text == question,
            block.kind == BeaconKind::Undisclosed,
            block.max_selections == 1,
            block.answers == answers,
    {
        BeaconContentBlock {
            question: BeaconQuestion::from(question),
            kind: BeaconKind::default(),
            max_selections: Self::default_max_selections(),
            answers,
        }
    }

    /// The number of selections that a response may hold where the beacon does not say.
    pub fn default_max_selections() -> (max: u64)
        ensures
            max == 1,
    {
        1
    }

    /// Whether `max_selections` is the number that a beacon has where it does not say.
    pub fn max_selections_is_default(max_selections: &u64) -> (b: bool)
        ensures
            b == (*max_selections == 1),
    {
        *max_selections == Self::default_max_selections()
    }

    /// The set of the IDs of the answers.
    pub fn answer_id_set(&self) -> (ids: StringSet)
        ensures
            ids.wf(),
            ids@ == self.answer_ids(),
    {
        let ghost all = answer_id_seq(self.answers@);
        let mut ids = StringSet::new();
        let mut i: usize = 0;
        assert(all.take(0) =~= Seq::<Seq<char>>::empty());
        assert(all.take(0).to_set() =~= Set::<Seq<char>>::empty());
        while i < self.answers.len()
            invariant
                all == answer_id_seq(self.answers@),
                0 <= i <= all.len(),
                ids.wf(),
                ids@ == all.take(i as int).to_set(),
            decreases all.len() - i,
        {
            ids.insert(self.answers.get(i).id.as_str());
            proof {
                assert(all.take(i + 1) =~= all.take(i as int).push(all[i as int]));
                all.take(i as int).lemma_push_to_set_commute(all[i as int]);
            }
            i = i + 1;
        }
        assert(all.take(i as int) =~= all);
        ids
    }
}

/// The IDs of `answers`, in their order.
pub open spec fn answer_id_seq(answers: Seq<BeaconAnswer>) -> Seq<Seq<char>> {
    answers.map_values(|a: BeaconAnswer| a.id@)
}

/// The question of a beacon.
#[derive(Clone, Debug)]
pub struct BeaconQuestion {
    /// The text representation of the question.
    pub text: TextContentBlock,
}

impl BeaconQuestion {
    /// The question with the given text.
    pub fn from(text: TextContentBlock) -> (question: Self)
        ensures
            question.text == text,
    {
        BeaconQuestion { text }
    }
}

/// The kind of beacon.
#[derive(Clone, Debug, PartialEq, Eq)]
pub enum BeaconKind {
    /// The results are revealed once the beacon is closed.
    Undisclosed,
    /// The votes are visible up until and including when the beacon is closed.
    Disclosed,
    /// A kind that this crate does not know, by its name.
    Custom(String),
}

impl Default for BeaconKind {
    fn default() -> (kind: Self)
        ensures
            kind == BeaconKind::Undisclosed,
    {
        BeaconKind::Undisclosed
    }
}

/// The name of a kind of beacon.
pub open spec fn kind_name(kind: BeaconKind) -> Seq<char> {
    match kind {
        BeaconKind::Undisclosed => "m.undisclosed"@,
        BeaconKind::Disclosed => "m.disclosed"@,
        BeaconKind::Custom(name) => name@,
    }
}

/// The kind of beacon that a name stands for.
pub open spec fn kind_named(name: Seq<char>) -> BeaconKind {
    if name == "m.undisclosed"@ {
        BeaconKind::Undisclosed
    } else if name == "m.disclosed"@ {
        BeaconKind::Disclosed
    } else {
        BeaconKind::Custom(choose|s: String| s@ == name)
    }
}

impl BeaconKind {
    /// Creates a string slice from this `BeaconKind`.
    pub fn as_str(&self) -> (name: &str)
        ensures
            name@ == kind_name(*self),
    {
        match self {
            BeaconKind::Undisclosed => "m.undisclosed",
            BeaconKind::Disclosed => "m.disclosed",
            BeaconKind::Custom(name) => name.as_str(),
        }
    }

    /// The kind of beacon with the given name.
    pub fn from(name: &str) -> (kind: Self)
        ensures
            kind_name(kind) == name@,
            name@ == "m.undisclosed"@ <==> kind == BeaconKind::Undisclosed,
            name@ == "m.disclosed"@ <==> kind == BeaconKind::Disclosed,
    {
        proof {
            reveal_strlit("m.undisclosed");
            reveal_strlit("m.disclosed");
            assert("m.undisclosed"@.len() == 13);
            assert("m.disclosed"@.len() == 11);
        }
        if crate::text::str_eq(name, "m.undisclosed") {
            BeaconKind::Undisclosed
        } else if crate::text::str_eq(name, "m.disclosed") {
            BeaconKind::Disclosed
        } else {
            BeaconKind::Custom(name.to_owned())
        }
    }
}

/// The answers to a beacon.
///
/// Must include between 1 and 20 `BeaconAnswer`s.
///
/// To build this, use the `TryFrom` implementations.
#[derive(Debug)]
pub struct BeaconAnswers {
    answers: Vec<BeaconAnswer>,
}

impl View for BeaconAnswers {
    type V = Seq<BeaconAnswer>;

    closed spec fn view(&self) -> Seq<BeaconAnswer> {
        self.answers@
    }
}

impl Clone for BeaconAnswers {
    fn clone(&self) -> (answers: Self)
        ensures
            answer_contents(answers@) == answer_contents(self@),
    {
        proof {
            use_type_invariant(self);
        }
        BeaconAnswers { answers: copy_answers(self.answers.as_slice()) }
    }
}

/// A copy of each of `answers`, in their order.
fn copy_answers(answers: &[BeaconAnswer]) -> (copies: Vec<BeaconAnswer>)
    ensures
        copies@.len() == answers@.len(),
        answer_contents(copies@) == answer_contents(answers@),
{
    let mut copies: Vec<BeaconAnswer> = Vec::new();
    let mut i: usize = 0;
    while i < answers.len()
        invariant
            0 <= i <= answers@.len(),
            copies@.len() == i,
            answer_contents(copies@) == answer_contents(answers@.take(i as int)),
        decreases answers@.len() - i,
    {
        let ghost before = copies@;
        let copy = answers[i].clone();
        copies.push(copy);
        proof {
            let shorter = answers@.take(i as int);
            let longer = answers@.take(i + 1);
            assert(longer =~= shorter.push(answers@[i as int]));
            assert(answer_contents(copies@) =~= answer_contents(before).push(copy.content()));
            assert(answer_contents(longer) =~= answer_contents(shorter).push(
                answers@[i as int].content(),
            ));
        }
        i = i + 1;
    }
    assert(answers@.take(i as int) =~= answers@);
    copies
}

// The conversion copies the answers: what it returns is said by the contract of `try_from`,
// over what the answers hold, and not by a function of the slice.
impl<'a> vstd::std_specs::convert::TryFromSpecImpl<&'a [BeaconAnswer]> for BeaconAnswers {
    open spec fn obeys_try_from_spec() -> bool {
        false
    }

    open spec fn try_from_spec(value: &'a [BeaconAnswer]) -> Result<Self, BeaconAnswersError> {
        arbitrary()
    }
}

impl<'a> TryFrom<&'a [BeaconAnswer]> for BeaconAnswers {
    type Error = BeaconAnswersError;

    fn try_from(value: &'a [BeaconAnswer]) -> (r: Result<Self, BeaconAnswersError>)
        ensures
            match r {
                Ok(answers) => 1 <= value@.len() <= 20 && answer_contents(answers@)
                    == answer_contents(value@),
                Err(BeaconAnswersError::NotEnoughValues) => value@.len() < 1,
                Err(BeaconAnswersError::TooManyValues) => value@.len() > 20,
            },
    {
        Self::try_from(copy_answers(value))
    }
}

impl BeaconAnswers {
    /// The smallest number of values contained in a `BeaconAnswers`.
    pub const MIN_LENGTH: usize = 1;

    /// The largest number of values contained in a `BeaconAnswers`.
    pub const MAX_LENGTH: usize = 20;

    #[verifier::type_invariant]
    spec fn within_bounds(&self) -> bool {
        1 <= self.answers@.len() <= 20
    }

    /// The number of answers.
    pub fn len(&self) -> (n: usize)
        ensures
            n == self@.len(),
            1 <= n <= 20,
    {
        proof {
            use_type_invariant(&self);
        }
        self.answers.len()
    }

    /// The answer at position `i`.
    pub fn get(&self, i: usize) -> (answer: &BeaconAnswer)
        requires
            i < self@.len(),
        ensures
            *answer == self@[i as int],
    {
        &self.answers[i]
    }

    /// The answers, in their order.
    pub fn as_slice(&self) -> (answers: &[BeaconAnswer])
        ensures
            answers@ == self@,
            1 <= answers@.len() <= 20,
    {
        proof {
            use_type_invariant(&self);
        }
        self.answers.as_slice()
    }

    /// The answers of a beacon as it came over the wire: those after the first 20 are left out,
    /// and the rest must be at least one.
    pub fn try_from_wire(answers: Vec<BeaconAnswer>) -> (r: Result<Self, BeaconAnswersError>)
        ensures
            match r {
                Ok(kept) => answers@.len() >= 1 && kept@ == cut_answers(answers@),
                Err(e) => answers@.len() == 0 && e == BeaconAnswersError::NotEnoughValues,
            },
    {
        let mut answers = answers;
        answers.truncate(Self::MAX_LENGTH);
        Self::try_from(answers)
    }
}

/// The first 20 of `answers`, or all of them if they are no more.
pub open spec fn cut_answers(answers: Seq<BeaconAnswer>) -> Seq<BeaconAnswer> {
    if answers.len() <= 20 {
        answers
    } else {
        answers.take(20)
    }
}

/// An error encountered when trying to convert to a `BeaconAnswers`.
#[derive(Copy, Clone, Debug, Eq, Hash, PartialEq)]
pub enum BeaconAnswersError {
    /// There are more than [`BeaconAnswers::MAX_LENGTH`] values.
    TooManyValues,
    /// There are less that [`BeaconAnswers::MIN_LENGTH`] values.
    NotEnoughValues,
}

impl BeaconAnswersError {
    /// What went wrong, in words.
    pub fn message(&self) -> (text: &'static str)
        ensures
            text@ == match *self {
                BeaconAnswersError::TooManyValues => "too many values"@,
                BeaconAnswersError::NotEnoughValues => "not enough values"@,
            },
    {
        match self {
            BeaconAnswersError::TooManyValues => "too many values",
            BeaconAnswersError::NotEnoughValues => "not enough values",
        }
    }
}

impl vstd::std_specs::convert::TryFromSpecImpl<Vec<BeaconAnswer>> for BeaconAnswers {
    open spec fn obeys_try_from_spec() -> bool {
        true
    }

    closed spec fn try_from_spec(value: Vec<BeaconAnswer>) -> Result<Self, BeaconAnswersError> {
        if value@.len() < 1 {
            Err(BeaconAnswersError::NotEnoughValues)
        } else if value@.len() > 20 {
            Err(BeaconAnswersError::TooManyValues)
        } else {
            Ok(BeaconAnswers { answers: value })
        }
    }
}

impl TryFrom<Vec<BeaconAnswer>> for BeaconAnswers {
    type Error = BeaconAnswersError;

    fn try_from(value: Vec<BeaconAnswer>) -> (r: Result<Self, BeaconAnswersError>)
        ensures
            match r {
                Ok(answers) => 1 <= value@.len() <= 20 && answers@ == value@,
                Err(BeaconAnswersError::NotEnoughValues) => value@.len() < 1,
                Err(BeaconAnswersError::TooManyValues) => value@.len() > 20,
            },
    {
        if value.len() < Self::MIN_LENGTH {
            Err(BeaconAnswersError::NotEnoughValues)
        } else if value.len() > Self::MAX_LENGTH {
            Err(BeaconAnswersError::TooManyValues)
        } else {
            Ok(BeaconAnswers { answers: value })
        }
    }
}

/// Beacon answer.
#[derive(Debug)]
pub struct BeaconAnswer {
    /// The ID of the answer.
    ///
    /// This must be unique among the answers of a beacon.
    pub id: String,
    /// The text representation of the answer.
    pub text: TextContentBlock,
}

impl Clone for BeaconAnswer {
    fn clone(&self) -> (copy: Self)
        ensures
            copy.content() == self.content(),
            answer_label(copy) == answer_label(*self),
    {
        BeaconAnswer { id: self.id.clone(), text: self.text.clone() }
    }
}

/// What each of `answers` holds.
pub open spec fn answer_contents(answers: Seq<BeaconAnswer>) -> Seq<
    (Seq<char>, Seq<(Seq<char>, Seq<char>)>),
> {
    answers.map_values(|a: BeaconAnswer| a.content())
}

impl BeaconAnswer {
    /// What the answer holds: its ID and what the representations of its text hold.
    pub open spec fn content(&self) -> (Seq<char>, Seq<(Seq<char>, Seq<char>)>) {
        (self.id@, self.text.contents())
    }

    /// Creates a new `BeaconAnswer` with the given id and text representation.
    pub fn new(id: String, text: TextContentBlock) -> (answer: Self)
        ensures
            answer.id == id,
            answer.text == text,
    {
        BeaconAnswer { id, text }
    }
}

} // verus!

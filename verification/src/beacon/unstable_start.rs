//! Types for the `org.matrix.msc3489.beacon.start` event, the unstable version of
//! `m.beacon.start`.

use vstd::prelude::*;

pub mod unstable_beacon_kind_serde;

use crate::beacon::end::{count_entries, ranking, vote_counts, BeaconResultsContentBlock};
use crate::beacon::start::{BeaconAnswersError, BeaconContentBlock, BeaconKind};
use crate::beacon::unstable_end::UnstableBeaconEndEventContent;
use crate::beacon::{
    compile_unstable_beacon_results, fallback_text, generate_beacon_end_fallback_text,
    label_views, response_views, tally_of, BeaconResponseData, Label, Response, Rules,
};
use crate::ordered::StringSet;
use crate::relation::{RelationWithoutReplacement, Replacement};

verus! {

/// The payload for an unstable beacon start event.
#[derive(Clone, Debug)]
pub enum UnstableBeaconStartEventContent {
    /// A new beacon start event.
    New(NewUnstableBeaconStartEventContent),
    /// A replacement beacon start event.
    Replacement(ReplacementUnstableBeaconStartEventContent),
}

impl UnstableBeaconStartEventContent {
    /// The beacon start content of this event content, as a specification.
    pub open spec fn spec_beacon_start(&self) -> UnstableBeaconStartContentBlock {
        match *self {
            UnstableBeaconStartEventContent::New(c) => c.beacon_start,
            UnstableBeaconStartEventContent::Replacement(c) => c.relates_to.new_content.beacon_start,
        }
    }

    /// Get the beacon start content of this event content.
    pub fn beacon_start(&self) -> (block: &UnstableBeaconStartContentBlock)
        ensures
            *block == self.spec_beacon_start(),
    {
        match self {
            UnstableBeaconStartEventContent::New(c) => &c.beacon_start,
            UnstableBeaconStartEventContent::Replacement(c) => &c.relates_to.new_content.beacon_start,
        }
    }

    /// What is left of this content once the event is redacted: nothing.
    pub fn redact(self) -> (redacted: RedactedUnstableBeaconStartEventContent)
        ensures
            redacted == (RedactedUnstableBeaconStartEventContent {  }),
    {
        RedactedUnstableBeaconStartEventContent::new()
    }

    /// The content of a new beacon start event.
    pub fn from_new(value: NewUnstableBeaconStartEventContent) -> (content: Self)
        ensures
            content == UnstableBeaconStartEventContent::New(value),
    {
        UnstableBeaconStartEventContent::New(value)
    }

    /// The content of a replacement beacon start event.
    pub fn from_replacement(value: ReplacementUnstableBeaconStartEventContent) -> (content: Self)
        ensures
            content == UnstableBeaconStartEventContent::Replacement(value),
    {
        UnstableBeaconStartEventContent::Replacement(value)
    }
}

/// An unstable beacon start event as it comes from a sync, where the room is known from the
/// context.
#[derive(Clone, Debug)]
pub struct OriginalSyncUnstableBeaconStartEvent {
    /// Data specific to the event type.
    pub content: UnstableBeaconStartEventContent,
    /// The globally unique identifier of the event.
    pub event_id: String,
    /// The fully-qualified ID of the user who sent this event.
    pub sender: String,
    /// Timestamp on the originating homeserver when this event was sent, in milliseconds since
    /// the Unix epoch.
    pub origin_server_ts: u64,
}

impl OriginalSyncUnstableBeaconStartEvent {
    /// Whether `end` is the end of this beacon as `responses` decide it, with the responses
    /// sent after `now` left out: it refers to this event and says in its text the number of
    /// votes of every answer that has votes, one line per answer, from the highest number of
    /// votes to the lowest.
    pub open spec fn is_end_at(
        &self,
        responses: Seq<Response>,
        now: u64,
        end: UnstableBeaconEndEventContent,
    ) -> bool {
        let beacon_start = self.content.spec_beacon_start();
        let counts = vote_counts(tally_of(beacon_start.rules(Some(now)), responses));
        &&& end.relates_to.event_id@ == self.event_id@
        &&& end.text@ == fallback_text(
            unstable_answer_labels(beacon_start.answers@),
            ranking(count_entries(counts)),
        )
    }

    /// Compile the results for this beacon with the given response into an
    /// `UnstableBeaconEndEventContent`.
    ///
    /// It generates a default text representation of the results in English. Responses sent
    /// after the time at which this is called are left out.
    pub fn compile_results<'a>(&'a self, responses: &[BeaconResponseData<'a>]) -> (end:
        UnstableBeaconEndEventContent)
        ensures
            exists|now: u64|
                now <= crate::uint::MAX_SAFE_UINT && self.is_end_at(
                    response_views(responses@),
                    now,
                    end,
                ),
    {
        let now = crate::time::now();
        let end = self.compile_results_at(responses, now);
        assert(now <= crate::uint::MAX_SAFE_UINT && self.is_end_at(
            response_views(responses@),
            now,
            end,
        ));
        end
    }

    /// Compile the results for this beacon as of `now`, in milliseconds since the Unix epoch.
    pub fn compile_results_at<'a>(&'a self, responses: &[BeaconResponseData<'a>], now: u64) -> (end:
        UnstableBeaconEndEventContent)
        ensures
            self.is_end_at(response_views(responses@), now, end),
    {
        let beacon_start = self.content.beacon_start();
        let full_results = compile_unstable_beacon_results(beacon_start, responses, Some(now));
        let counts = BeaconResultsContentBlock::from_tally(&full_results);
        let answers = beacon_start.labels();
        let results = counts.sorted();
        let plain_text = generate_beacon_end_fallback_text(answers.as_slice(), results.as_slice());
        UnstableBeaconEndEventContent::new(plain_text, self.event_id.clone())
    }
}

/// The ID of an answer with its text.
pub open spec fn unstable_answer_label(answer: UnstableBeaconAnswer) -> Label {
    (answer.id@, answer.text@)
}

/// The labels of `answers`, in their order.
pub open spec fn unstable_answer_labels(answers: Seq<UnstableBeaconAnswer>) -> Seq<Label> {
    answers.map_values(|a: UnstableBeaconAnswer| unstable_answer_label(a))
}

/// The name of the `org.matrix.msc3489.beacon.start` event type.
pub open spec fn unstable_beacon_start_type() -> Seq<char> {
    "org.matrix.msc3489.beacon.start"@
}

/// A new unstable beacon start event.
#[derive(Clone, Debug)]
pub struct NewUnstableBeaconStartEventContent {
    /// The beacon content of the message.
    pub beacon_start: UnstableBeaconStartContentBlock,
    /// Text representation of the message, for clients that don't support beacons.
    pub text: Option<String>,
    /// Information about related messages.
    pub relates_to: Option<RelationWithoutReplacement>,
}

impl NewUnstableBeaconStartEventContent {
    /// Creates a `NewUnstableBeaconStartEventContent` with the given beacon content.
    pub fn new(beacon_start: UnstableBeaconStartContentBlock) -> (content: Self)
        ensures
            content.beacon_start == beacon_start,
            content.text is None,
            content.relates_to is None,
    {
        NewUnstableBeaconStartEventContent { beacon_start, text: None, relates_to: None }
    }

    /// Creates a `NewUnstableBeaconStartEventContent` with the given plain text fallback
    /// representation and beacon content.
    pub fn plain_text(text: String, beacon_start: UnstableBeaconStartContentBlock) -> (content:
        Self)
        ensures
            content.beacon_start == beacon_start,
            content.text == Some(text),
            content.relates_to is None,
    {
        NewUnstableBeaconStartEventContent { beacon_start, text: Some(text), relates_to: None }
    }

    /// The type of the event that has this content.
    pub fn event_type(&self) -> (name: &'static str)
        ensures
            name@ == unstable_beacon_start_type(),
    {
        "org.matrix.msc3489.beacon.start"
    }
}

/// Form of [`NewUnstableBeaconStartEventContent`] without relation.
///
/// To construct this type, construct a [`NewUnstableBeaconStartEventContent`] and then use
/// `from`.
#[derive(Clone, Debug)]
pub struct NewUnstableBeaconStartEventContentWithoutRelation {
    /// The beacon content of the message.
    pub beacon_start: UnstableBeaconStartContentBlock,
    /// Text representation of the message, for clients that don't support beacons.
    pub text: Option<String>,
}

impl NewUnstableBeaconStartEventContentWithoutRelation {
    /// The same content, without its relation.
    pub fn from(value: NewUnstableBeaconStartEventContent) -> (content: Self)
        ensures
            content.beacon_start == value.beacon_start,
            content.text == value.text,
    {
        let NewUnstableBeaconStartEventContent { beacon_start, text, relates_to: _ } = value;
        NewUnstableBeaconStartEventContentWithoutRelation { beacon_start, text }
    }
}

/// A replacement unstable beacon start event.
#[derive(Clone, Debug)]
pub struct ReplacementUnstableBeaconStartEventContent {
    /// The beacon content of the message.
    pub beacon_start: Option<UnstableBeaconStartContentBlock>,
    /// Text representation of the message, for clients that don't support beacons.
    pub text: Option<String>,
    /// Information about related messages.
    pub relates_to: Replacement<NewUnstableBeaconStartEventContentWithoutRelation>,
}

impl ReplacementUnstableBeaconStartEventContent {
    /// Creates a `ReplacementUnstableBeaconStartEventContent` with the given beacon content that
    /// replaces the event with the given ID.
    ///
    /// The constructed content does not have a fallback by default.
    pub fn new(beacon_start: UnstableBeaconStartContentBlock, replaces: String) -> (content: Self)
        ensures
            content.beacon_start is None,
            content.text is None,
            content.relates_to.event_id@ == replaces@,
            content.relates_to.new_content.beacon_start == beacon_start,
            content.relates_to.new_content.text is None,
    {
        ReplacementUnstableBeaconStartEventContent {
            beacon_start: None,
            text: None,
            relates_to: Replacement::new(
                replaces,
                NewUnstableBeaconStartEventContentWithoutRelation::from(
                    NewUnstableBeaconStartEventContent::new(beacon_start),
                ),
            ),
        }
    }

    /// Creates a `ReplacementUnstableBeaconStartEventContent` with the given plain text fallback
    /// representation and beacon content that replaces the event with the given ID.
    ///
    /// The fallback goes with the new content; the replacement itself has none.
    pub fn plain_text(
        text: String,
        beacon_start: UnstableBeaconStartContentBlock,
        replaces: String,
    ) -> (content: Self)
        ensures
            content.beacon_start is None,
            content.text is None,
            content.relates_to.event_id@ == replaces@,
            content.relates_to.new_content.beacon_start == beacon_start,
            content.relates_to.new_content.text == Some(text),
    {
        ReplacementUnstableBeaconStartEventContent {
            beacon_start: None,
            text: None,
            relates_to: Replacement::new(
                replaces,
                NewUnstableBeaconStartEventContentWithoutRelation::from(
                    NewUnstableBeaconStartEventContent::plain_text(text, beacon_start),
                ),
            ),
        }
    }

    /// The type of the event that has this content.
    pub fn event_type(&self) -> (name: &'static str)
        ensures
            name@ == unstable_beacon_start_type(),
    {
        "org.matrix.msc3489.beacon.start"
    }
}

/// Redacted form of UnstableBeaconStartEventContent
#[derive(Clone, Debug, Default)]
pub struct RedactedUnstableBeaconStartEventContent {}

impl RedactedUnstableBeaconStartEventContent {
    /// Creates an empty RedactedUnstableBeaconStartEventContent.
    pub fn new() -> (content: RedactedUnstableBeaconStartEventContent)
        ensures
            content == (RedactedUnstableBeaconStartEventContent {  }),
    {
        RedactedUnstableBeaconStartEventContent {  }
    }

    /// The type of the event that has this content.
    pub fn event_type(&self) -> (name: &'static str)
        ensures
            name@ == unstable_beacon_start_type(),
    {
        "org.matrix.msc3489.beacon.start"
    }
}

/// An unstable block for beacon start content.
#[derive(Clone, Debug)]
pub struct UnstableBeaconStartContentBlock {
    /// The question of the beacon.
    pub question: UnstableBeaconQuestion,
    /// The kind of the beacon.
    pub kind: BeaconKind,
    /// The maximum number of responses a user is able to select.
    ///
    /// Must be greater or equal to `1`.
    ///
    /// Defaults to `1`.
    pub max_selections: u64,
    /// The possible answers to the beacon.
    pub answers: UnstableBeaconAnswers,
}

impl UnstableBeaconStartContentBlock {
    /// The IDs of the answers.
    pub open spec fn answer_ids(&self) -> Set<Seq<char>> {
        unstable_answer_id_seq(self.answers@).to_set()
    }

    /// The rules by which the responses to this beacon count, with the given cutoff.
    pub open spec fn rules(&self, cutoff: Option<u64>) -> Rules {
        Rules {
            answer_ids: self.answer_ids(),
            max_selections: self.max_selections as nat,
            cutoff,
        }
    }

    /// The ID of every answer with its text.
    pub fn labels(&self) -> (labels: Vec<(&str, &str)>)
        ensures
            label_views(labels@) == unstable_answer_labels(self.answers@),
    {
        let mut labels: Vec<(&str, &str)> = Vec::new();
        let mut i: usize = 0;
        while i < self.answers.len()
            invariant
                0 <= i <= self.answers@.len(),
                label_views(labels@) == unstable_answer_labels(self.answers@.take(i as int)),
            decreases self.answers@.len() - i,
        {
            let answer = self.answers.get(i);
            let ghost before = labels@;
            labels.push((answer.id.as_str(), answer.text.as_str()));
            proof {
                let shorter = self.answers@.take(i as int);
                let longer = self.answers@.take(i + 1);
                assert(longer =~= shorter.push(*answer));
                assert(label_views(labels@) =~= label_views(before).push(
                    unstable_answer_label(*answer),
                ));
                assert(unstable_answer_labels(longer) =~= unstable_answer_labels(shorter).push(
                    unstable_answer_label(*answer),
                ));
            }
            i = i + 1;
        }
        assert(self.answers@.take(i as int) =~= self.answers@);
        labels
    }

    /// Creates a new `UnstableBeaconStartContentBlock` with the given question and answers.
    pub fn new(question: String, answers: UnstableBeaconAnswers) -> (block: Self)
        ensures
            block.question.text@ == question@,
            block.kind == BeaconKind::Undisclosed,
            block.max_selections == 1,
            block.answers == answers,
    {
        UnstableBeaconStartContentBlock {
            question: UnstableBeaconQuestion::new(question),
            kind: BeaconKind::default(),
            max_selections: BeaconContentBlock::default_max_selections(),
            answers,
        }
    }

    /// The set of the IDs of the answers.
    pub fn answer_id_set(&self) -> (ids: StringSet)
        ensures
            ids.wf(),
            ids@ == self.answer_ids(),
    {
        let ghost all = unstable_answer_id_seq(self.answers@);
        let mut ids = StringSet::new();
        let mut i: usize = 0;
        assert(all.take(0) =~= Seq::<Seq<char>>::empty());
        assert(all.take(0).to_set() =~= Set::<Seq<char>>::empty());
        while i < self.answers.len()
            invariant
                all == unstable_answer_id_seq(self.answers@),
                0 <= i <= all.len(),
                ids.wf(),
                ids@ == all.take(i as int).to_set(),
            decreases all.len() - i,
        {
            ids.insert(self.answers.get(i).id.as_str());
            proof {
                assert(all.take(i + 1) =~= all.take(i as int).push(all[i as int]));
                all.take(i as int).lemma_push_to_set_commute(all[i as int]);
            }
            i = i + 1;
        }
        assert(all.take(i as int) =~= all);
        ids
    }
}

/// The IDs of `answers`, in their order.
pub open spec fn unstable_answer_id_seq(answers: Seq<UnstableBeaconAnswer>) -> Seq<Seq<char>> {
    answers.map_values(|a: UnstableBeaconAnswer| a.id@)
}

/// An unstable beacon question.
#[derive(Clone, Debug)]
pub struct UnstableBeaconQuestion {
    /// The text representation of the question.
    pub text: String,
}

impl UnstableBeaconQuestion {
    /// Creates a new `UnstableBeaconQuestion` with the given plain text.
    pub fn new(text: String) -> (question: Self)
        ensures
            question.text == text,
    {
        UnstableBeaconQuestion { text }
    }
}

/// The unstable answers to a beacon.
///
/// Must include between 1 and 20 `UnstableBeaconAnswer`s.
///
/// To build this, use one of the `TryFrom` implementations.
#[derive(Debug)]
pub struct UnstableBeaconAnswers {
    answers: Vec<UnstableBeaconAnswer>,
}

impl View for UnstableBeaconAnswers {
    type V = Seq<UnstableBeaconAnswer>;

    closed spec fn view(&self) -> Seq<UnstableBeaconAnswer> {
        self.answers@
    }
}

impl Clone for UnstableBeaconAnswers {
    fn clone(&self) -> (answers: Self)
        ensures
            unstable_answer_labels(answers@) == unstable_answer_labels(self@),
    {
        proof {
            use_type_invariant(self);
        }
        UnstableBeaconAnswers { answers: copy_unstable_answers(self.answers.as_slice()) }
    }
}

/// A copy of each of `answers`, in their order.
fn copy_unstable_answers(answers: &[UnstableBeaconAnswer]) -> (copies: Vec<UnstableBeaconAnswer>)
    ensures
        copies@.len() == answers@.len(),
        unstable_answer_labels(copies@) == unstable_answer_labels(answers@),
{
    let mut copies: Vec<UnstableBeaconAnswer> = Vec::new();
    let mut i: usize = 0;
    while i < answers.len()
        invariant
            0 <= i <= answers@.len(),
            copies@.len() == i,
            unstable_answer_labels(copies@) == unstable_answer_labels(answers@.take(i as int)),
        decreases answers@.len() - i,
    {
        let ghost before = copies@;
        let copy = answers[i].clone();
        copies.push(copy);
        proof {
            let shorter = answers@.take(i as int);
            let longer = answers@.take(i + 1);
            assert(longer =~= shorter.push(answers@[i as int]));
            assert(unstable_answer_labels(copies@) =~= unstable_answer_labels(before).push(
                unstable_answer_label(copy),
            ));
            assert(unstable_answer_labels(longer) =~= unstable_answer_labels(shorter).push(
                unstable_answer_label(answers@[i as int]),
            ));
        }
        i = i + 1;
    }
    assert(answers@.take(i as int) =~= answers@);
    copies
}

// The conversion copies the answers: what it returns is said by the contract of `try_from`,
// over what the answers hold, and not by a function of the slice.
impl<'a> vstd::std_specs::convert::TryFromSpecImpl<&'a [UnstableBeaconAnswer]> for UnstableBeaconAnswers {
    open spec fn obeys_try_from_spec() -> bool {
        false
    }

    open spec fn try_from_spec(value: &'a [UnstableBeaconAnswer]) -> Result<
        Self,
        BeaconAnswersError,
    > {
        arbitrary()
    }
}

impl<'a> TryFrom<&'a [UnstableBeaconAnswer]> for UnstableBeaconAnswers {
    type Error = BeaconAnswersError;

    fn try_from(value: &'a [UnstableBeaconAnswer]) -> (r: Result<Self, BeaconAnswersError>)
        ensures
            match r {
                Ok(answers) => 1 <= value@.len() <= 20 && unstable_answer_labels(answers@)
                    == unstable_answer_labels(value@),
                Err(BeaconAnswersError::NotEnoughValues) => value@.len() < 1,
                Err(BeaconAnswersError::TooManyValues) => value@.len() > 20,
            },
    {
        Self::try_from(copy_unstable_answers(value))
    }
}

impl UnstableBeaconAnswers {
    #[verifier::type_invariant]
    spec fn within_bounds(&self) -> bool {
        1 <= self.answers@.len() <= 20
    }

    /// The number of answers.
    pub fn len(&self) -> (n: usize)
        ensures
            n == self@.len(),
            1 <= n <= 20,
    {
        proof {
            use_type_invariant(&self);
        }
        self.answers.len()
    }

    /// The answer at position `i`.
    pub fn get(&self, i: usize) -> (answer: &UnstableBeaconAnswer)
        requires
            i < self@.len(),
        ensures
            *answer == self@[i as int],
    {
        &self.answers[i]
    }

    /// The answers, in their order.
    pub fn as_slice(&self) -> (answers: &[UnstableBeaconAnswer])
        ensures
            answers@ == self@,
            1 <= answers@.len() <= 20,
    {
        proof {
            use_type_invariant(&self);
        }
        self.answers.as_slice()
    }

    /// The answers of a beacon as it came over the wire: those after the first 20 are left out,
    /// and the rest must be at least one.
    pub fn try_from_wire(answers: Vec<UnstableBeaconAnswer>) -> (r: Result<
        Self,
        BeaconAnswersError,
    >)
        ensures
            match r {
                Ok(kept) => answers@.len() >= 1 && kept@ == cut_unstable_answers(answers@),
                Err(e) => answers@.len() == 0 && e == BeaconAnswersError::NotEnoughValues,
            },
    {
        let mut answers = answers;
        answers.truncate(20);
        Self::try_from(answers)
    }
}

/// The first 20 of `answers`, or all of them if they are no more.
pub open spec fn cut_unstable_answers(answers: Seq<UnstableBeaconAnswer>) -> Seq<
    UnstableBeaconAnswer,
> {
    if answers.len() <= 20 {
        answers
    } else {
        answers.take(20)
    }
}

impl vstd::std_specs::convert::TryFromSpecImpl<Vec<UnstableBeaconAnswer>> for UnstableBeaconAnswers {
    open spec fn obeys_try_from_spec() -> bool {
        true
    }

    closed spec fn try_from_spec(value: Vec<UnstableBeaconAnswer>) -> Result<
        Self,
        BeaconAnswersError,
    > {
        if value@.len() < 1 {
            Err(BeaconAnswersError::NotEnoughValues)
        } else if value@.len() > 20 {
            Err(BeaconAnswersError::TooManyValues)
        } else {
            Ok(UnstableBeaconAnswers { answers: value })
        }
    }
}

impl TryFrom<Vec<UnstableBeaconAnswer>> for UnstableBeaconAnswers {
    type Error = BeaconAnswersError;

    fn try_from(value: Vec<UnstableBeaconAnswer>) -> (r: Result<Self, BeaconAnswersError>)
        ensures
            match r {
                Ok(answers) => 1 <= value@.len() <= 20 && answers@ == value@,
                Err(BeaconAnswersError::NotEnoughValues) => value@.len() < 1,
                Err(BeaconAnswersError::TooManyValues) => value@.len() > 20,
            },
    {
        if value.len() < 1 {
            Err(BeaconAnswersError::NotEnoughValues)
        } else if value.len() > 20 {
            Err(BeaconAnswersError::TooManyValues)
        } else {
            Ok(UnstableBeaconAnswers { answers: value })
        }
    }
}

/// Unstable beacon answer.
#[derive(Debug)]
pub struct UnstableBeaconAnswer {
    /// The ID of the answer.
    ///
    /// This must be unique among the answers of a beacon.
    pub id: String,
    /// The text representation of the answer.
    pub text: String,
}

impl Clone for UnstableBeaconAnswer {
    fn clone(&self) -> (copy: Self)
        ensures
            unstable_answer_label(copy) == unstable_answer_label(*self),
    {
        UnstableBeaconAnswer { id: self.id.clone(), text: self.text.clone() }
    }
}

impl UnstableBeaconAnswer {
    /// Creates a new `UnstableBeaconAnswer` with the given id and text representation.
    pub fn new(id: String, text: String) -> (answer: Self)
        ensures
            answer.id == id,
            answer.text == text,
    {
        UnstableBeaconAnswer { id, text }
    }
}

} // verus!

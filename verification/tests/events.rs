use beacon_events::beacon::beacon::BeaconStateEventContent;
use beacon_events::beacon::end::BeaconEndEventContent;
use beacon_events::beacon::response::{
    BeaconResponseEventContent, OriginalBeaconResponseEvent, OriginalSyncBeaconResponseEvent,
    SelectionsContentBlock,
};
use beacon_events::beacon::start::{
    BeaconAnswer, BeaconAnswers, BeaconAnswersError, BeaconContentBlock, BeaconKind,
    BeaconQuestion, BeaconStartEventContent, OriginalSyncBeaconStartEvent,
};
use beacon_events::beacon::unstable_end::UnstableBeaconEndEventContent;
use beacon_events::beacon::unstable_response::{
    OriginalSyncUnstableBeaconResponseEvent, OriginalUnstableBeaconResponseEvent,
    UnstableBeaconResponseContentBlock, UnstableBeaconResponseEventContent,
};
use beacon_events::beacon::unstable_start::unstable_beacon_kind_serde::{deserialize, serialize};
use beacon_events::beacon::unstable_start::{
    NewUnstableBeaconStartEventContent, NewUnstableBeaconStartEventContentWithoutRelation,
    OriginalSyncUnstableBeaconStartEvent, RedactedUnstableBeaconStartEventContent,
    ReplacementUnstableBeaconStartEventContent, UnstableBeaconAnswer, UnstableBeaconAnswers,
    UnstableBeaconQuestion, UnstableBeaconStartContentBlock, UnstableBeaconStartEventContent,
};
use beacon_events::beacon::{
    compile_beacon_results, compile_unstable_beacon_results, BeaconResponseData,
};
use beacon_events::beacon_info::BeaconInfoEventContent;
use beacon_events::location::{AssetContent, AssetType, LocationContent, ZoomLevel};
use beacon_events::message::{TextContentBlock, TextRepresentation};
use beacon_events::relation::{Reference, Replacement};

fn s(text: &str) -> String {
    text.to_string()
}

fn strings(names: &[&str]) -> Vec<String> {
    names.iter().map(|s| s.to_string()).collect()
}

fn plain_answers(ids: &[&str]) -> Vec<BeaconAnswer> {
    ids.iter()
        .map(|id| BeaconAnswer::new(id.to_string(), TextContentBlock::plain(format!("The {id}"))))
        .collect()
}

fn numbered_answers(n: usize) -> Vec<BeaconAnswer> {
    (0..n).map(|i| BeaconAnswer::new(format!("id{i}"), TextContentBlock::plain(format!("Answer {i}")))).collect()
}

fn unstable_answers(n: usize) -> Vec<UnstableBeaconAnswer> {
    (0..n).map(|i| UnstableBeaconAnswer::new(format!("id{i}"), format!("Answer {i}"))).collect()
}

fn beacon(ids: &[&str], max_selections: u64) -> BeaconContentBlock {
    let answers = BeaconAnswers::try_from(plain_answers(ids)).unwrap();
    let mut block = BeaconContentBlock::new(TextContentBlock::plain(s("Which?")), answers);
    block.max_selections = max_selections;
    block
}

#[test]
fn answers_must_be_between_one_and_twenty() {
    assert!(matches!(
        BeaconAnswers::try_from(numbered_answers(0)),
        Err(BeaconAnswersError::NotEnoughValues)
    ));
    assert!(matches!(
        BeaconAnswers::try_from(numbered_answers(21)),
        Err(BeaconAnswersError::TooManyValues)
    ));
    assert!(matches!(
        BeaconAnswers::try_from(numbered_answers(1000)),
        Err(BeaconAnswersError::TooManyValues)
    ));
    for n in 1..=20 {
        let answers = BeaconAnswers::try_from(numbered_answers(n)).unwrap();
        assert_eq!(answers.len(), n);
        assert_eq!(answers.as_slice().len(), n);
        assert_eq!(answers.get(n - 1).id, format!("id{}", n - 1));
        assert_eq!(answers.clone().len(), n);
    }
    assert_eq!(BeaconAnswers::MIN_LENGTH, 1);
    assert_eq!(BeaconAnswers::MAX_LENGTH, 20);
}

#[test]
fn unstable_answers_must_be_between_one_and_twenty() {
    assert!(matches!(
        UnstableBeaconAnswers::try_from(unstable_answers(0)),
        Err(BeaconAnswersError::NotEnoughValues)
    ));
    assert!(matches!(
        UnstableBeaconAnswers::try_from(unstable_answers(21)),
        Err(BeaconAnswersError::TooManyValues)
    ));
    for n in 1..=20 {
        let answers = UnstableBeaconAnswers::try_from(unstable_answers(n)).unwrap();
        assert_eq!(answers.len(), n);
        assert_eq!(answers.get(0).text, "Answer 0");
    }
}

#[test]
fn answers_from_the_wire_are_cut_to_twenty() {
    let answers = BeaconAnswers::try_from_wire(numbered_answers(25)).unwrap();
    assert_eq!(answers.len(), 20);
    assert_eq!(answers.get(0).id, "id0");
    assert_eq!(answers.get(19).id, "id19");
    assert_eq!(BeaconAnswers::try_from_wire(numbered_answers(3)).unwrap().len(), 3);
    assert!(matches!(
        BeaconAnswers::try_from_wire(numbered_answers(0)),
        Err(BeaconAnswersError::NotEnoughValues)
    ));
    let unstable = UnstableBeaconAnswers::try_from_wire(unstable_answers(21)).unwrap();
    assert_eq!(unstable.len(), 20);
    assert_eq!(unstable.get(19).id, "id19");
    assert!(matches!(
        UnstableBeaconAnswers::try_from_wire(unstable_answers(0)),
        Err(BeaconAnswersError::NotEnoughValues)
    ));
}

#[test]
fn answers_error_says_what_is_wrong() {
    assert_eq!(BeaconAnswersError::TooManyValues.message(), "too many values");
    assert_eq!(BeaconAnswersError::NotEnoughValues.message(), "not enough values");
}

#[test]
fn beacon_content_block_defaults() {
    let block = beacon(&["a"], 1);
    assert_eq!(block.kind, BeaconKind::Undisclosed);
    let fresh = BeaconContentBlock::new(
        TextContentBlock::plain(s("Q")),
        BeaconAnswers::try_from(plain_answers(&["a", "b"])).unwrap(),
    );
    assert_eq!(fresh.max_selections, 1);
    assert_eq!(fresh.question.text.find_plain(), Some("Q"));
    assert_eq!(BeaconContentBlock::default_max_selections(), 1);
    assert!(BeaconContentBlock::max_selections_is_default(&1));
    assert!(!BeaconContentBlock::max_selections_is_default(&2));
    assert_eq!(BeaconKind::default(), BeaconKind::Undisclosed);
    assert_eq!(BeaconQuestion::from(TextContentBlock::plain(s("Q"))).text.find_plain(), Some("Q"));
    let ids = fresh.answer_id_set();
    assert_eq!(ids.len(), 2);
    assert!(ids.contains("a") && ids.contains("b"));
    assert_eq!(fresh.labels(), vec![("a", "The a"), ("b", "The b")]);
}

#[test]
fn beacon_kind_names_go_both_ways() {
    assert_eq!(BeaconKind::Undisclosed.as_str(), "m.undisclosed");
    assert_eq!(BeaconKind::Disclosed.as_str(), "m.disclosed");
    assert_eq!(BeaconKind::Custom(s("org.example.kind")).as_str(), "org.example.kind");
    assert_eq!(BeaconKind::from("m.undisclosed"), BeaconKind::Undisclosed);
    assert_eq!(BeaconKind::from("m.disclosed"), BeaconKind::Disclosed);
    assert_eq!(BeaconKind::from("org.example.kind"), BeaconKind::Custom(s("org.example.kind")));
    assert_eq!(BeaconKind::from(""), BeaconKind::Custom(s("")));
}

#[test]
fn unstable_beacon_kind_names_go_both_ways() {
    assert_eq!(serialize(&BeaconKind::Undisclosed), "org.matrix.msc3489.beacon.undisclosed");
    assert_eq!(serialize(&BeaconKind::Disclosed), "org.matrix.msc3489.beacon.disclosed");
    assert_eq!(serialize(&BeaconKind::Custom(s("x"))), "x");
    assert_eq!(deserialize("org.matrix.msc3489.beacon.undisclosed"), BeaconKind::Undisclosed);
    assert_eq!(deserialize("org.matrix.msc3489.beacon.disclosed"), BeaconKind::Disclosed);
    assert_eq!(deserialize("m.disclosed"), BeaconKind::Custom(s("m.disclosed")));
}

#[test]
fn text_block_finds_its_last_plain_text() {
    let html = TextRepresentation::new(s("text/html"), s("<b>hi</b>"));
    assert!(!html.is_plain());
    assert!(TextRepresentation::plain(s("hi")).is_plain());
    let block = TextContentBlock::from_representations(vec![
        TextRepresentation::plain(s("first")),
        html.clone(),
        TextRepresentation::plain(s("second")),
        html.clone(),
    ]);
    assert_eq!(block.len(), 4);
    assert_eq!(block.get(1).body, "<b>hi</b>");
    assert_eq!(block.find_plain(), Some("second"));
    assert_eq!(TextContentBlock::from_representations(vec![html]).find_plain(), None);
    let empty = TextContentBlock::from_representations(vec![]);
    assert!(empty.is_empty());
    assert_eq!(empty.find_plain(), None);
    assert_eq!(TextContentBlock::plain(s("only")).find_plain(), Some("only"));
}

#[test]
fn an_answer_without_plain_text_is_called_by_its_id() {
    let answers = BeaconAnswers::try_from(vec![
        BeaconAnswer::new(
            s("x"),
            TextContentBlock::from_representations(vec![TextRepresentation::new(
                s("text/html"),
                s("<i>X</i>"),
            )]),
        ),
        BeaconAnswer::new(s("y"), TextContentBlock::plain(s("Why"))),
    ])
    .unwrap();
    let block = BeaconContentBlock::new(TextContentBlock::plain(s("Q")), answers);
    assert_eq!(block.labels(), vec![("x", "x"), ("y", "Why")]);
}

#[test]
fn selections_block_validates_against_a_beacon() {
    let block = beacon(&["red", "blue", "green"], 2);
    let selections = SelectionsContentBlock::from(strings(&["black", "green", "red", "blue"]));
    assert!(!selections.is_empty());
    assert_eq!(selections.validate(&block), Some(vec!["green", "red"]));
    assert_eq!(selections.as_slice(), strings(&["black", "green", "red", "blue"]).as_slice());
    let none = SelectionsContentBlock::from(strings(&["black"]));
    assert_eq!(none.validate(&block), None);
    let empty = SelectionsContentBlock::from(vec![]);
    assert!(empty.is_empty());
    assert_eq!(empty.validate(&block), None);
    assert_eq!(selections.into_vec(), strings(&["black", "green", "red", "blue"]));
}

#[test]
fn unstable_response_block_validates_against_a_beacon() {
    let answers = UnstableBeaconAnswers::try_from(unstable_answers(3)).unwrap();
    let mut start = UnstableBeaconStartContentBlock::new(s("Q"), answers);
    assert_eq!(start.max_selections, 1);
    assert_eq!(start.kind, BeaconKind::Undisclosed);
    assert_eq!(start.question.text, "Q");
    let response = UnstableBeaconResponseContentBlock::new(strings(&["id2", "nope", "id0"]));
    assert_eq!(response.validate(&start), Some(vec!["id2"]));
    start.max_selections = 5;
    assert_eq!(response.validate(&start), Some(vec!["id2", "id0"]));
    assert_eq!(UnstableBeaconResponseContentBlock::from(strings(&["nope"])).validate(&start), None);
    assert_eq!(start.labels(), vec![("id0", "Answer 0"), ("id1", "Answer 1"), ("id2", "Answer 2")]);
    assert_eq!(start.answer_id_set().len(), 3);
}

#[test]
fn response_events_hand_out_their_data() {
    let content =
        BeaconResponseEventContent::new(SelectionsContentBlock::from(strings(&["a"])), s("$start"));
    assert_eq!(content.relates_to.event_id, "$start");
    let sync = OriginalSyncBeaconResponseEvent {
        content: content.clone(),
        event_id: s("$r1"),
        sender: s("@ann:x"),
        origin_server_ts: 42,
    };
    let data = sync.data();
    assert_eq!(data.sender, "@ann:x");
    assert_eq!(data.origin_server_ts, 42);
    assert_eq!(data.selections, strings(&["a"]).as_slice());
    let full = OriginalBeaconResponseEvent {
        content,
        event_id: s("$r2"),
        sender: s("@bob:x"),
        origin_server_ts: 43,
        room_id: s("!room:x"),
    };
    let data = full.data();
    assert_eq!(data.sender, "@bob:x");
    assert_eq!(data.origin_server_ts, 43);
    assert_eq!(data.selections, strings(&["a"]).as_slice());
}

#[test]
fn unstable_response_events_hand_out_their_data() {
    let content = UnstableBeaconResponseEventContent::new(strings(&["a", "b"]), s("$start"));
    assert_eq!(content.relates_to.event_id, "$start");
    assert_eq!(content.beacon_response.answers, strings(&["a", "b"]));
    let sync = OriginalSyncUnstableBeaconResponseEvent {
        content: content.clone(),
        event_id: s("$r1"),
        sender: s("@ann:x"),
        origin_server_ts: 7,
    };
    let data = sync.data();
    assert_eq!(data.sender, "@ann:x");
    assert_eq!(data.origin_server_ts, 7);
    assert_eq!(data.selections, strings(&["a", "b"]).as_slice());
    let full = OriginalUnstableBeaconResponseEvent {
        content,
        event_id: s("$r2"),
        sender: s("@bob:x"),
        origin_server_ts: 8,
        room_id: s("!room:x"),
    };
    let data = full.data();
    assert_eq!(data.sender, "@bob:x");
    assert_eq!(data.origin_server_ts, 8);
    assert_eq!(data.selections, strings(&["a", "b"]).as_slice());
}

#[test]
fn compile_beacon_results_for_both_kinds_of_beacon() {
    let block = beacon(&["id0", "id1", "id2"], 2);
    let unstable = {
        let mut b = UnstableBeaconStartContentBlock::new(
            s("Q"),
            UnstableBeaconAnswers::try_from(unstable_answers(3)).unwrap(),
        );
        b.max_selections = 2;
        b
    };
    let ann = strings(&["id1", "id0", "id2"]);
    let bob = strings(&["id1"]);
    let responses = vec![
        BeaconResponseData { sender: "@ann:x", origin_server_ts: 1, selections: &ann },
        BeaconResponseData { sender: "@bob:x", origin_server_ts: 2, selections: &bob },
    ];
    for tally in [
        compile_beacon_results(&block, &responses, None),
        compile_unstable_beacon_results(&unstable, &responses, None),
    ] {
        assert_eq!(tally.len(), 2);
        assert_eq!(tally.count("id0"), 1);
        assert_eq!(tally.count("id1"), 2);
        assert_eq!(tally.count("id2"), 0);
    }
    assert_eq!(compile_beacon_results(&block, &responses, Some(1)).count("id1"), 1);
    assert_eq!(compile_unstable_beacon_results(&unstable, &responses, Some(0)).len(), 0);
}

#[test]
fn start_event_compiles_its_end() {
    let start = OriginalSyncBeaconStartEvent {
        content: BeaconStartEventContent::with_plain_text(s("Which?"), beacon(&["red", "blue"], 1)),
        event_id: s("$start"),
        sender: s("@ann:x"),
        origin_server_ts: 0,
    };
    let red = strings(&["red"]);
    let blue = strings(&["blue", "red"]);
    let responses = vec![
        BeaconResponseData { sender: "@ann:x", origin_server_ts: 1, selections: &red },
        BeaconResponseData { sender: "@bob:x", origin_server_ts: 2, selections: &blue },
        BeaconResponseData { sender: "@ann:x", origin_server_ts: 3, selections: &blue },
        BeaconResponseData { sender: "@cat:x", origin_server_ts: 4, selections: &red },
        BeaconResponseData { sender: "@dan:x", origin_server_ts: 100, selections: &red },
    ];
    let end = start.compile_results_at(&responses, 50);
    assert_eq!(end.relates_to.event_id, "$start");
    assert_eq!(end.text.find_plain(), Some("The blue: 2 vote(s)\nThe red: 1 vote(s)"));
    let results = end.beacon_results.unwrap();
    assert_eq!(results.sorted(), vec![("blue", 2), ("red", 1)]);

    let end = start.compile_results_at(&responses, 100);
    assert_eq!(end.text.find_plain(), Some("The blue: 2 vote(s)\nThe red: 2 vote(s)"));

    let end = start.compile_results_at(&responses, 0);
    assert_eq!(end.text.find_plain(), Some(""));
    assert!(end.beacon_results.unwrap().is_empty());
}

#[test]
fn start_event_compiles_its_end_as_of_now() {
    let start = OriginalSyncBeaconStartEvent {
        content: BeaconStartEventContent::new(
            TextContentBlock::plain(s("Which?")),
            beacon(&["red", "blue"], 1),
        ),
        event_id: s("$start"),
        sender: s("@ann:x"),
        origin_server_ts: 0,
    };
    assert!(start.content.relates_to.is_none());
    let red = strings(&["red"]);
    let blue = strings(&["blue"]);
    let responses = vec![
        // Sent in 2001.
        BeaconResponseData { sender: "@ann:x", origin_server_ts: 1_000_000_000_000, selections: &red },
        // Sent in the year 287396.
        BeaconResponseData {
            sender: "@bob:x",
            origin_server_ts: 9_007_199_254_740_991,
            selections: &blue,
        },
    ];
    let end = start.compile_results(&responses);
    assert_eq!(end.relates_to.event_id, "$start");
    assert_eq!(end.text.find_plain(), Some("The red: 1 vote(s)"));
    assert_eq!(end.beacon_results.unwrap().sorted(), vec![("red", 1)]);
}

fn unstable_start_event() -> OriginalSyncUnstableBeaconStartEvent {
    let mut block = UnstableBeaconStartContentBlock::new(
        s("Q"),
        UnstableBeaconAnswers::try_from(unstable_answers(3)).unwrap(),
    );
    block.max_selections = 3;
    OriginalSyncUnstableBeaconStartEvent {
        content: UnstableBeaconStartEventContent::from_new(NewUnstableBeaconStartEventContent::new(
            block,
        )),
        event_id: s("$unstable"),
        sender: s("@ann:x"),
        origin_server_ts: 0,
    }
}

#[test]
fn unstable_start_event_compiles_its_end() {
    let start = unstable_start_event();
    let one = strings(&["id2", "id1"]);
    let two = strings(&["id2"]);
    let responses = vec![
        BeaconResponseData { sender: "@ann:x", origin_server_ts: 1, selections: &one },
        BeaconResponseData { sender: "@bob:x", origin_server_ts: 2, selections: &two },
        BeaconResponseData { sender: "@cat:x", origin_server_ts: 9, selections: &two },
    ];
    let end = start.compile_results_at(&responses, 5);
    assert_eq!(end.relates_to.event_id, "$unstable");
    assert_eq!(end.text, "Answer 2: 2 vote(s)\nAnswer 1: 1 vote(s)");
    let end = start.compile_results(&responses);
    assert_eq!(end.text, "Answer 2: 3 vote(s)\nAnswer 1: 1 vote(s)");
}

#[test]
fn unstable_start_contents() {
    let block = || {
        UnstableBeaconStartContentBlock::new(
            s("Q"),
            UnstableBeaconAnswers::try_from(unstable_answers(2)).unwrap(),
        )
    };
    let new = NewUnstableBeaconStartEventContent::new(block());
    assert!(new.text.is_none());
    assert!(new.relates_to.is_none());
    assert_eq!(new.event_type(), "org.matrix.msc3489.beacon.start");
    let with_text = NewUnstableBeaconStartEventContent::plain_text(s("fallback"), block());
    assert_eq!(with_text.text.as_deref(), Some("fallback"));
    let bare = NewUnstableBeaconStartEventContentWithoutRelation::from(with_text.clone());
    assert_eq!(bare.text.as_deref(), Some("fallback"));
    assert_eq!(bare.beacon_start.answers.len(), 2);

    let replacement = ReplacementUnstableBeaconStartEventContent::new(block(), s("$old"));
    assert!(replacement.beacon_start.is_none());
    assert!(replacement.text.is_none());
    assert_eq!(replacement.relates_to.event_id, "$old");
    assert!(replacement.relates_to.new_content.text.is_none());
    assert_eq!(replacement.event_type(), "org.matrix.msc3489.beacon.start");
    let replacement =
        ReplacementUnstableBeaconStartEventContent::plain_text(s("fallback"), block(), s("$old"));
    assert!(replacement.text.is_none());
    assert_eq!(replacement.relates_to.new_content.text.as_deref(), Some("fallback"));
    assert_eq!(replacement.relates_to.new_content.beacon_start.question.text, "Q");

    let content = UnstableBeaconStartEventContent::from_replacement(replacement);
    assert_eq!(content.beacon_start().answers.len(), 2);
    let content = UnstableBeaconStartEventContent::from_new(with_text);
    assert_eq!(content.beacon_start().question.text, "Q");
    let redacted = content.redact();
    assert_eq!(redacted.event_type(), "org.matrix.msc3489.beacon.start");
    assert_eq!(RedactedUnstableBeaconStartEventContent::new().event_type(), redacted.event_type());
    assert_eq!(UnstableBeaconQuestion::new(s("Q")).text, "Q");
    let answer = UnstableBeaconAnswer::new(s("a"), s("A"));
    assert_eq!((answer.id.as_str(), answer.text.as_str()), ("a", "A"));
}

#[test]
fn end_contents() {
    let end = BeaconEndEventContent::new(TextContentBlock::plain(s("done")), s("$start"));
    assert_eq!(end.text.find_plain(), Some("done"));
    assert!(end.beacon_results.is_none());
    assert_eq!(end.relates_to.event_id, "$start");
    let end = BeaconEndEventContent::with_plain_text(s("over"), s("$start"));
    assert_eq!(end.text.find_plain(), Some("over"));
    assert_eq!(end.text.len(), 1);
    assert!(end.beacon_results.is_none());
    let end = UnstableBeaconEndEventContent::new(s("over"), s("$start"));
    assert_eq!(end.text, "over");
    assert_eq!(end.relates_to.event_id, "$start");
    assert_eq!(Reference::new(s("$e")).event_id, "$e");
    let replacement = Replacement::new(s("$e"), 5u8);
    assert_eq!((replacement.event_id.as_str(), replacement.new_content), ("$e", 5));
}

#[test]
fn beacon_state_is_live_after_its_end() {
    let mut content = BeaconStateEventContent::new(Some(s("Alice's location")), 60_000);
    assert!(!content.live);
    assert!(content.ts.is_none());
    assert_eq!(content.timeout, 60_000);
    assert_eq!(content.asset.type_, AssetType::Self_);
    assert_eq!(content.description.as_deref(), Some("Alice's location"));
    // A beacon that is not live needs no timestamp.
    assert!(!content.is_live());
    assert!(!content.is_live_at(u64::MAX));
    content.start();
    assert!(content.live);
    content.ts = Some(1_636_829_458);
    assert!(!content.is_live_at(1_636_829_458));
    assert!(!content.is_live_at(1_636_889_458));
    assert!(content.is_live_at(1_636_889_459));
    // The timestamp lies in 1970, so by now the end has passed.
    assert!(content.is_live());
    content.ts = Some(9_007_199_254_000_000);
    assert!(!content.is_live());
    content.stop();
    assert!(!content.live);
    assert!(!content.is_live_at(u64::MAX));
}

#[test]
fn room_beacon_info_is_live_after_its_end() {
    let mut content = beacon_events::room::beacon::BeaconInfoEventContent::new(None, 500);
    assert!(!content.live);
    assert!(content.description.is_none());
    assert!(!content.is_live());
    content.start();
    content.ts = Some(1000);
    assert!(!content.is_live_at(1200));
    assert!(!content.is_live_at(1500));
    assert!(content.is_live_at(1501));
    assert!(content.is_live());
    content.stop();
    assert!(!content.is_live_at(1501));
    assert!(!content.is_live());
}

#[test]
fn beacon_info_and_location() {
    let location = LocationContent::new(s("geo:51.5008,0.1247;u=35"));
    assert!(location.description.is_none());
    assert!(location.zoom_level.is_none());
    let info = BeaconInfoEventContent::new(Reference::new(s("$beacon")), location, Some(5));
    assert_eq!(info.relates_to.event_id, "$beacon");
    assert_eq!(info.location.uri, "geo:51.5008,0.1247;u=35");
    assert_eq!(info.ts, Some(5));
    assert_eq!(ZoomLevel::new(20).unwrap().get(), 20);
    assert_eq!(ZoomLevel::new(0).unwrap().get(), 0);
    assert!(ZoomLevel::new(21).is_none());
    assert_eq!((ZoomLevel::MIN, ZoomLevel::MAX), (0, 20));
    assert_eq!(AssetContent::new().type_, AssetType::Self_);
    assert_eq!(AssetContent::default().type_, AssetType::default());
}

#[test]
fn answers_from_a_slice_are_copies() {
    let answers = plain_answers(&["a", "b"]);
    let copied = BeaconAnswers::try_from(answers.as_slice()).unwrap();
    assert_eq!(copied.len(), 2);
    assert_eq!(copied.get(1).id, "b");
    assert_eq!(copied.get(1).text.find_plain(), Some("The b"));
    let again = copied.clone();
    assert_eq!(again.get(0).id, "a");
    assert_eq!(again.get(0).text.find_plain(), Some("The a"));
    assert!(matches!(
        BeaconAnswers::try_from(numbered_answers(0).as_slice()),
        Err(BeaconAnswersError::NotEnoughValues)
    ));
    assert!(matches!(
        BeaconAnswers::try_from(numbered_answers(21).as_slice()),
        Err(BeaconAnswersError::TooManyValues)
    ));
    assert_eq!(BeaconAnswers::try_from(numbered_answers(20).as_slice()).unwrap().len(), 20);

    let unstable = unstable_answers(2);
    let copied = UnstableBeaconAnswers::try_from(unstable.as_slice()).unwrap();
    assert_eq!((copied.get(1).id.as_str(), copied.get(1).text.as_str()), ("id1", "Answer 1"));
    assert_eq!(copied.clone().get(0).text, "Answer 0");
    assert!(matches!(
        UnstableBeaconAnswers::try_from(unstable_answers(0).as_slice()),
        Err(BeaconAnswersError::NotEnoughValues)
    ));
    assert!(matches!(
        UnstableBeaconAnswers::try_from(unstable_answers(21).as_slice()),
        Err(BeaconAnswersError::TooManyValues)
    ));
}

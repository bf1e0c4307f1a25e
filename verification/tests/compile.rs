use beacon_events::beacon::end::BeaconResultsContentBlock;
use beacon_events::beacon::tally::Tally;
use beacon_events::beacon::{
    aggregate_results, compile, filter_selections, find_label, generate_beacon_end_fallback_text,
    validate_selections, BeaconResponseData,
};
use beacon_events::ordered::StringSet;

fn ids(names: &[&str]) -> StringSet {
    let mut set = StringSet::new();
    for name in names {
        set.insert(name);
    }
    set
}

fn strings(names: &[&str]) -> Vec<String> {
    names.iter().map(|s| s.to_string()).collect()
}

fn listing(tally: &Tally) -> Vec<(String, Vec<String>)> {
    let mut out = Vec::new();
    for i in 0..tally.len() {
        let voters = tally.voters(i);
        let mut names = Vec::new();
        for j in 0..voters.len() {
            names.push(voters.get(j).clone());
        }
        out.push((tally.answer_id(i).clone(), names));
    }
    out
}

fn entry(answer: &str, voters: &[&str]) -> (String, Vec<String>) {
    (answer.to_string(), strings(voters))
}

#[test]
fn red_blue_scenario() {
    let answers = ids(&["red", "blue"]);
    let alice_first = strings(&["red"]);
    let bob = strings(&["blue", "red"]);
    let alice_second = strings(&["blue"]);
    let responses = vec![
        BeaconResponseData { sender: "@alice:example.org", origin_server_ts: 1, selections: &alice_first },
        BeaconResponseData { sender: "@bob:example.org", origin_server_ts: 2, selections: &bob },
        BeaconResponseData { sender: "@alice:example.org", origin_server_ts: 3, selections: &alice_second },
    ];
    let tally = compile(&answers, 1, &responses, None);
    assert_eq!(listing(&tally), vec![entry("blue", &["@alice:example.org", "@bob:example.org"])]);
    assert_eq!(tally.len(), 1);
    assert_eq!(tally.count("blue"), 2);
    assert_eq!(tally.count("red"), 0);
    assert!(tally.get("red").is_none());
    let voters = tally.get("blue").unwrap();
    assert!(voters.contains("@alice:example.org"));
    assert!(voters.contains("@bob:example.org"));
    assert!(!voters.contains("@carol:example.org"));

    let block = BeaconResultsContentBlock::from_tally(&tally);
    let board = block.sorted();
    assert_eq!(board, vec![("blue", 2)]);
    let text = generate_beacon_end_fallback_text(&[("red", "red"), ("blue", "blue")], &board);
    assert_eq!(text, "blue: 2 vote(s)");
}

#[test]
fn validate_filters_then_truncates() {
    let answers = ids(&["a", "b", "c"]);
    let raw = strings(&["x", "b", "b", "a", "c"]);
    assert_eq!(validate_selections(&answers, 3, &raw), Some(vec!["b", "b", "a"]));
    assert_eq!(validate_selections(&answers, 1, &raw), Some(vec!["b"]));
    assert_eq!(validate_selections(&answers, 10, &raw), Some(vec!["b", "b", "a", "c"]));
    assert_eq!(validate_selections(&answers, u64::MAX, &raw), Some(vec!["b", "b", "a", "c"]));
}

#[test]
fn validate_without_valid_selection_is_none() {
    let answers = ids(&["a", "b", "c"]);
    assert_eq!(validate_selections(&answers, 2, &strings(&["x", "y"])), None);
    assert_eq!(validate_selections(&answers, 2, &[]), None);
    assert_eq!(validate_selections(&answers, 0, &strings(&["a"])), None);
    assert_eq!(validate_selections(&ids(&[]), 2, &strings(&["a"])), None);
}

#[test]
fn validate_returns_only_answers_and_at_most_max() {
    let answers = ids(&["one", "two", "three"]);
    let raws = [
        strings(&["one", "four", "two", "three", "one"]),
        strings(&["four", "five"]),
        strings(&["three", "three", "three"]),
        strings(&[]),
    ];
    for raw in &raws {
        for max in 0..5u64 {
            if let Some(valid) = validate_selections(&answers, max, raw) {
                assert!(!valid.is_empty());
                assert!(valid.len() as u64 <= max);
                for id in valid {
                    assert!(answers.contains(id));
                }
            }
        }
    }
}

#[test]
fn compile_twice_gives_the_same_tally() {
    let answers = ids(&["a", "b", "c"]);
    let s1 = strings(&["a", "c"]);
    let s2 = strings(&["b"]);
    let s3 = strings(&["c", "zzz"]);
    let responses = vec![
        BeaconResponseData { sender: "@u2:x", origin_server_ts: 5, selections: &s1 },
        BeaconResponseData { sender: "@u1:x", origin_server_ts: 6, selections: &s2 },
        BeaconResponseData { sender: "@u3:x", origin_server_ts: 7, selections: &s3 },
    ];
    let first = compile(&answers, 2, &responses, Some(6));
    let second = compile(&answers, 2, &responses, Some(6));
    assert_eq!(listing(&first), listing(&second));
    assert_eq!(
        listing(&first),
        vec![entry("a", &["@u2:x"]), entry("b", &["@u1:x"]), entry("c", &["@u2:x"])]
    );
}

#[test]
fn two_selections_count_for_both_answers() {
    let answers = ids(&["tea", "coffee", "water"]);
    let both = strings(&["tea", "coffee"]);
    let responses =
        vec![BeaconResponseData { sender: "@ann:x", origin_server_ts: 1, selections: &both }];
    let tally = compile(&answers, 2, &responses, None);
    assert_eq!(listing(&tally), vec![entry("coffee", &["@ann:x"]), entry("tea", &["@ann:x"])]);
}

#[test]
fn a_repeated_selection_is_one_vote() {
    let answers = ids(&["tea", "coffee"]);
    let twice = strings(&["tea", "tea"]);
    let responses =
        vec![BeaconResponseData { sender: "@ann:x", origin_server_ts: 1, selections: &twice }];
    let tally = compile(&answers, 2, &responses, None);
    assert_eq!(listing(&tally), vec![entry("tea", &["@ann:x"])]);
    assert_eq!(tally.count("tea"), 1);
}

#[test]
fn last_processed_response_wins_whatever_its_time() {
    let answers = ids(&["a", "b"]);
    let a = strings(&["a"]);
    let b = strings(&["b"]);
    let later_first = vec![
        BeaconResponseData { sender: "@ann:x", origin_server_ts: 9, selections: &a },
        BeaconResponseData { sender: "@ann:x", origin_server_ts: 3, selections: &b },
    ];
    assert_eq!(listing(&compile(&answers, 1, &later_first, None)), vec![entry("b", &["@ann:x"])]);
    let earlier_first = vec![
        BeaconResponseData { sender: "@ann:x", origin_server_ts: 3, selections: &b },
        BeaconResponseData { sender: "@ann:x", origin_server_ts: 9, selections: &a },
    ];
    assert_eq!(listing(&compile(&answers, 1, &earlier_first, None)), vec![entry("a", &["@ann:x"])]);
}

#[test]
fn an_invalid_response_does_not_replace_a_valid_one() {
    let answers = ids(&["a", "b"]);
    let a = strings(&["a"]);
    let bad = strings(&["nothing"]);
    let empty = strings(&[]);
    let responses = vec![
        BeaconResponseData { sender: "@ann:x", origin_server_ts: 1, selections: &a },
        BeaconResponseData { sender: "@ann:x", origin_server_ts: 2, selections: &bad },
        BeaconResponseData { sender: "@ann:x", origin_server_ts: 3, selections: &empty },
    ];
    assert_eq!(listing(&compile(&answers, 1, &responses, None)), vec![entry("a", &["@ann:x"])]);
}

#[test]
fn a_response_after_the_cutoff_gives_no_vote() {
    let answers = ids(&["a", "b"]);
    let a = strings(&["a"]);
    let b = strings(&["b"]);
    let responses = vec![
        BeaconResponseData { sender: "@ann:x", origin_server_ts: 10, selections: &a },
        BeaconResponseData { sender: "@bob:x", origin_server_ts: 11, selections: &b },
        BeaconResponseData { sender: "@ann:x", origin_server_ts: 12, selections: &b },
    ];
    // The cutoff itself is still in time.
    assert_eq!(
        listing(&compile(&answers, 1, &responses, Some(11))),
        vec![entry("a", &["@ann:x"]), entry("b", &["@bob:x"])]
    );
    assert_eq!(listing(&compile(&answers, 1, &responses, Some(10))), vec![entry("a", &["@ann:x"])]);
    assert_eq!(listing(&compile(&answers, 1, &responses, Some(9))), vec![]);
    assert_eq!(listing(&compile(&answers, 1, &responses, Some(0))), vec![]);
    // Without a cutoff nothing is too late.
    assert_eq!(
        listing(&compile(&answers, 1, &responses, None)),
        vec![entry("b", &["@ann:x", "@bob:x"])]
    );
    // Leaving the late response out changes nothing.
    assert_eq!(
        listing(&compile(&answers, 1, &responses[..2], Some(11))),
        listing(&compile(&answers, 1, &responses, Some(11)))
    );
}

#[test]
fn no_response_gives_an_empty_tally() {
    let answers = ids(&["a", "b"]);
    let tally = compile(&answers, 1, &[], None);
    assert!(tally.is_empty());
    assert_eq!(tally.len(), 0);
    let block = BeaconResultsContentBlock::from_tally(&tally);
    assert!(block.is_empty());
    assert!(block.sorted().is_empty());
    assert_eq!(generate_beacon_end_fallback_text(&[("a", "A")], &block.sorted()), "");
}

#[test]
fn filter_then_aggregate_is_compile() {
    let answers = ids(&["a", "b"]);
    let a = strings(&["a", "b"]);
    let b = strings(&["b"]);
    let responses = vec![
        BeaconResponseData { sender: "@bob:x", origin_server_ts: 1, selections: &a },
        BeaconResponseData { sender: "@ann:x", origin_server_ts: 2, selections: &b },
    ];
    let kept = filter_selections(&answers, 2, &responses, None);
    assert_eq!(kept.len(), 2);
    assert_eq!(kept.key(0), "@ann:x");
    assert_eq!(kept.value(0), &vec!["b"]);
    assert_eq!(kept.get("@bob:x"), Some(&vec!["a", "b"]));
    let tally = aggregate_results(&kept);
    assert_eq!(listing(&tally), listing(&compile(&answers, 2, &responses, None)));
    assert_eq!(listing(&tally), vec![entry("a", &["@bob:x"]), entry("b", &["@ann:x", "@bob:x"])]);
}

#[test]
fn tally_add_vote_keeps_answers_and_voters_in_order() {
    let mut tally = Tally::new();
    tally.add_vote("pear", "@zoe:x");
    tally.add_vote("apple", "@bob:x");
    tally.add_vote("pear", "@ann:x");
    tally.add_vote("pear", "@zoe:x");
    assert_eq!(
        listing(&tally),
        vec![entry("apple", &["@bob:x"]), entry("pear", &["@ann:x", "@zoe:x"])]
    );
    assert_eq!(tally.count("pear"), 2);
    assert_eq!(tally.count("plum"), 0);
}

#[test]
fn sorted_orders_by_votes_then_by_answer_id() {
    let block = BeaconResultsContentBlock::from_iter(vec![
        ("pear".to_string(), 2),
        ("apple".to_string(), 2),
        ("fig".to_string(), 5),
        ("kiwi".to_string(), 0),
        ("banana".to_string(), 2),
    ]);
    assert_eq!(
        block.sorted(),
        vec![("fig", 5), ("apple", 2), ("banana", 2), ("pear", 2), ("kiwi", 0)]
    );
    // The same block again gives the same order.
    assert_eq!(block.sorted(), block.sorted());
}

#[test]
fn results_block_keeps_the_last_count_of_an_answer() {
    let mut block = BeaconResultsContentBlock::from_iter(vec![
        ("b".to_string(), 1),
        ("a".to_string(), 7),
        ("b".to_string(), 3),
    ]);
    assert_eq!(block.len(), 2);
    assert_eq!(block.get("a"), Some(7));
    assert_eq!(block.get("b"), Some(3));
    assert_eq!(block.get("c"), None);
    assert_eq!(block.answer_id(0), "a");
    assert_eq!(block.count(1), 3);
    block.insert("c", 9);
    block.insert("a", 0);
    assert_eq!(block.sorted(), vec![("c", 9), ("b", 3), ("a", 0)]);
    assert!(BeaconResultsContentBlock::new().is_empty());
}

#[test]
fn results_block_counts_the_voters_of_a_tally() {
    let mut tally = Tally::new();
    tally.add_vote("x", "@a:x");
    tally.add_vote("x", "@b:x");
    tally.add_vote("x", "@c:x");
    tally.add_vote("y", "@a:x");
    let block = BeaconResultsContentBlock::from_tally(&tally);
    assert_eq!(block.get("x"), Some(3));
    assert_eq!(block.get("y"), Some(1));
    assert_eq!(block.get("z"), None);
    assert_eq!(block.len(), 2);
}

#[test]
fn fallback_text_has_one_line_per_result_in_the_order_given() {
    let answers = [("a", "Apple"), ("b", "Banana"), ("c", "Cherry")];
    let text =
        generate_beacon_end_fallback_text(&answers, &[("b", 12), ("c", 1), ("a", 0)]);
    assert_eq!(text, "Banana: 12 vote(s)\nCherry: 1 vote(s)\nApple: 0 vote(s)");
    assert_eq!(generate_beacon_end_fallback_text(&answers, &[("a", 0)]), "Apple: 0 vote(s)");
    assert_eq!(generate_beacon_end_fallback_text(&answers, &[]), "");
}

#[test]
fn fallback_text_calls_an_unknown_answer_by_its_id() {
    let answers = [("a", "Apple"), ("a", "Apricot")];
    assert_eq!(find_label(&answers, "a"), "Apple");
    assert_eq!(find_label(&answers, "q"), "q");
    assert_eq!(
        generate_beacon_end_fallback_text(&answers, &[("q", 18446744073709551615), ("a", 3)]),
        "q: 18446744073709551615 vote(s)\nApple: 3 vote(s)"
    );
}

#[test]
fn results_block_lists_its_results_by_answer_id() {
    let block = BeaconResultsContentBlock::from_iter(vec![
        ("pear".to_string(), 2),
        ("apple".to_string(), 9),
        ("fig".to_string(), 5),
    ]);
    assert_eq!(
        block.to_vec(),
        vec![("apple".to_string(), 9), ("fig".to_string(), 5), ("pear".to_string(), 2)]
    );
    assert!(BeaconResultsContentBlock::new().to_vec().is_empty());
}

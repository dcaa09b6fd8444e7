use std::collections::HashMap;
use traitbot::memory::{
    check_rate_limit, load_memory, save_memory, ChannelHistory, RateLimits,
    RATE_LIMIT_WINDOW_NANOS,
};

#[test]
fn second_question_within_window_is_refused() {
    let mut limits = RateLimits::new();
    assert_eq!(check_rate_limit(&mut limits, 1, "anna", 1_000), Ok(()));
    let r = check_rate_limit(&mut limits, 1, "anna", 1_000 + RATE_LIMIT_WINDOW_NANOS - 1);
    assert_eq!(r, Err("anna Please wait a few seconds before asking again".to_string()));
}

#[test]
fn question_after_window_is_accepted() {
    let mut limits = RateLimits::new();
    assert_eq!(check_rate_limit(&mut limits, 1, "anna", 1_000), Ok(()));
    assert_eq!(check_rate_limit(&mut limits, 1, "anna", 1_000 + RATE_LIMIT_WINDOW_NANOS), Ok(()));
    assert_eq!(limits.last_request(1), Some(1_000 + RATE_LIMIT_WINDOW_NANOS));
}

#[test]
fn refusal_does_not_extend_window() {
    let mut limits = RateLimits::new();
    check_rate_limit(&mut limits, 1, "anna", 0).unwrap();
    assert!(check_rate_limit(&mut limits, 1, "anna", 10).is_err());
    assert_eq!(limits.last_request(1), Some(0));
    assert!(check_rate_limit(&mut limits, 1, "anna", RATE_LIMIT_WINDOW_NANOS).is_ok());
}

#[test]
fn users_are_limited_independently() {
    let mut limits = RateLimits::new();
    check_rate_limit(&mut limits, 1, "anna", 0).unwrap();
    assert_eq!(check_rate_limit(&mut limits, 2, "bea", 5), Ok(()));
    assert_eq!(limits.last_request(3), None);
}

#[test]
fn earlier_clock_reading_counts_as_no_time() {
    let mut limits = RateLimits::new();
    check_rate_limit(&mut limits, 1, "anna", 5_000).unwrap();
    assert!(check_rate_limit(&mut limits, 1, "anna", 10).is_err());
}

fn history_with(n: usize) -> ChannelHistory {
    let mut m = HashMap::new();
    m.insert(9u64, (0..n).map(|i| format!("e{}", i)).collect::<Vec<_>>());
    ChannelHistory::from_map(m)
}

#[test]
fn begin_question_keeps_up_to_limit() {
    let mut h = history_with(10);
    let joined = h.begin_question(9);
    assert_eq!(h.history(9).len(), 10);
    assert_eq!(joined, (0..10).map(|i| format!("e{}", i)).collect::<Vec<_>>().join("\n"));
}

#[test]
fn begin_question_drops_only_the_oldest() {
    let mut h = history_with(12);
    let joined = h.begin_question(9);
    let expected: Vec<String> = (1..12).map(|i| format!("e{}", i)).collect();
    assert_eq!(h.history(9), expected);
    assert_eq!(joined, expected.join("\n"));
}

#[test]
fn begin_question_creates_empty_history() {
    let mut h = ChannelHistory::new();
    assert_eq!(h.begin_question(4), "");
    assert!(h.history(4).is_empty());
    assert!(h.history(5).is_empty());
}

#[test]
fn exchange_is_appended_in_its_channel_only() {
    let mut h = history_with(2);
    h.record_exchange(9, " hi", "hello");
    h.record_exchange(3, "q", "a");
    assert_eq!(h.history(9), vec!["e0", "e1", "User:  hi", "AI: hello"]);
    assert_eq!(h.history(3), vec!["User: q", "AI: a"]);
}

#[test]
fn saved_memory_loads_back() {
    let mut h = ChannelHistory::new();
    h.record_exchange(1376958993582391599, "q \"quoted\"\n", "é");
    h.record_exchange(2, "x", "y");
    let text = save_memory(&h);
    let back = load_memory(Some(&text));
    assert_eq!(back.history(1376958993582391599), h.history(1376958993582391599));
    assert_eq!(back.history(2), h.history(2));
}

#[test]
fn load_memory_reads_json() {
    let h = load_memory(Some("{\"12\": [\"User: a\", \"AI: b\"]}"));
    assert_eq!(h.history(12), vec!["User: a", "AI: b"]);
}

#[test]
fn unreadable_or_invalid_memory_is_empty() {
    assert!(load_memory(None).history(12).is_empty());
    assert!(load_memory(Some("not json")).history(12).is_empty());
    assert!(load_memory(Some("{\"x\": [\"a\"]}")).history(12).is_empty());
}

#[test]
fn empty_memory_saves_as_empty_object() {
    let text = save_memory(&ChannelHistory::new());
    assert_eq!(text, "{}");
}

#[test]
fn history_grows_past_the_limit() {
    let mut h = ChannelHistory::new();
    for k in 1..=9usize {
        h.begin_question(5);
        h.record_exchange(5, "q", "a");
        let expected = if k <= 6 { 2 * k } else { k + 6 };
        assert_eq!(h.history(5).len(), expected);
    }
}

#[test]
fn saved_text_reads_back_after_an_answer() {
    let mut h = ChannelHistory::new();
    h.record_exchange(3, "q", "a");
    let text = save_memory(&h);
    assert_ne!(text, "{}");
    let parsed: HashMap<u64, Vec<String>> = serde_json::from_str(&text).unwrap();
    assert_eq!(parsed.get(&3), Some(&vec!["User: q".to_string(), "AI: a".to_string()]));
}

use web3_proxy::call::{CallInfo, Elapsed, MethodInfo, Timestamp};
use web3_proxy::error::ErrorBag;
use web3_proxy::json::JsonValue;
use web3_proxy::registry::{method_entries, newest_calls, SharedData};
use web3_proxy::request::ParsedRequest;

fn call(n: u32) -> CallInfo {
    CallInfo {
        request: Some(format!("request {}", n)),
        response: Some(format!("response {}", n)),
        parsed_request: vec![],
        date: Timestamp { secs: 1_700_000_000 + i64::from(n), nanos: n },
        response_time: Elapsed { secs: 0, nanos: 1000 * n },
    }
}

fn call_with_methods(n: u32, methods: &[&str]) -> CallInfo {
    let mut c = call(n);
    c.parsed_request = methods
        .iter()
        .enumerate()
        .map(|(i, m)| ParsedRequest {
            id: JsonValue::Number(format!("{}", 10 * n as usize + i)),
            method: m.to_string(),
            params: vec![],
        })
        .collect();
    c
}

fn filled(queue_size: usize, key: &str, calls: u32) -> SharedData {
    let mut registry = SharedData::new(queue_size);
    for n in 1..=calls {
        registry.record_request_seen(key);
        registry.append_call(key, call(n)).unwrap();
    }
    registry
}

fn history(registry: &SharedData, key: &str) -> Vec<CallInfo> {
    registry.get(key).unwrap().calls.iter().cloned().collect()
}

#[test]
fn new_registry_is_empty() {
    let registry = SharedData::new(3);
    assert_eq!(registry.queue_size(), 3);
    assert!(registry.get("k").is_none());
    assert!(registry.get("").is_none());
}

#[test]
fn ensure_makes_a_zeroed_record_once() {
    let mut registry = SharedData::new(3);
    {
        let record = registry.ensure("k");
        assert_eq!(record.key, "k");
        assert_eq!(record.total_calls, 0);
        assert_eq!(record.total_requests, 0);
        assert!(record.calls.is_empty());
    }
    registry.record_request_seen("k");
    registry.append_call("k", call(1)).unwrap();
    let record = registry.ensure("k");
    assert_eq!(record.total_requests, 1);
    assert_eq!(record.total_calls, 1);
    assert_eq!(record.calls.len(), 1);
}

#[test]
fn first_request_is_counted() {
    let mut registry = SharedData::new(3);
    registry.record_request_seen("k");
    let record = registry.get("k").unwrap();
    assert_eq!(record.key, "k");
    assert_eq!(record.total_requests, 1);
    assert_eq!(record.total_calls, 0);
    assert!(record.calls.is_empty());
}

#[test]
fn history_never_exceeds_the_queue_size() {
    let queue_size = 4;
    for calls in [1, 3, 4, 5, 9] {
        let registry = filled(queue_size, "k", calls);
        let len = registry.get("k").unwrap().calls.len();
        assert_eq!(len, std::cmp::min(calls as usize, queue_size));
    }
}

#[test]
fn eviction_drops_the_oldest_first() {
    let registry = filled(3, "k", 5);
    assert_eq!(history(&registry, "k"), vec![call(3), call(4), call(5)]);
    let registry = filled(3, "k", 3);
    assert_eq!(history(&registry, "k"), vec![call(1), call(2), call(3)]);
    let registry = filled(3, "k", 4);
    assert_eq!(history(&registry, "k"), vec![call(2), call(3), call(4)]);
}

#[test]
fn queue_size_zero_keeps_nothing_but_counts() {
    let registry = filled(0, "k", 3);
    let record = registry.get("k").unwrap();
    assert!(record.calls.is_empty());
    assert_eq!(record.total_calls, 3);
    assert_eq!(record.total_requests, 3);
    assert_eq!(registry.recent_calls("k", None).unwrap(), vec![]);
}

#[test]
fn counters_count_commits_per_key() {
    let mut registry = SharedData::new(2);
    let mut seen_before = 0;
    let mut calls_before = 0;
    for n in 1..=7u32 {
        registry.record_request_seen("a");
        if n % 2 == 0 {
            registry.record_request_seen("b");
        }
        if n % 3 != 0 {
            registry.append_call("a", call(n)).unwrap();
        }
        let record = registry.get("a").unwrap();
        assert!(record.total_requests >= seen_before);
        assert!(record.total_calls >= calls_before);
        seen_before = record.total_requests;
        calls_before = record.total_calls;
    }
    let a = registry.get("a").unwrap();
    assert_eq!(a.total_requests, 7);
    assert_eq!(a.total_calls, 5);
    let b = registry.get("b").unwrap();
    assert_eq!(b.total_requests, 3);
    assert_eq!(b.total_calls, 0);
    assert!(b.calls.is_empty());
}

#[test]
fn keys_do_not_share_histories() {
    let mut registry = SharedData::new(2);
    registry.record_request_seen("a");
    registry.record_request_seen("b");
    registry.append_call("a", call(1)).unwrap();
    registry.append_call("b", call(2)).unwrap();
    registry.append_call("a", call(3)).unwrap();
    assert_eq!(history(&registry, "a"), vec![call(1), call(3)]);
    assert_eq!(history(&registry, "b"), vec![call(2)]);
}

#[test]
fn append_call_for_unknown_key_fails_and_changes_nothing() {
    let mut registry = filled(2, "k", 1);
    let e = registry.append_call("z", call(9)).unwrap_err();
    assert_eq!(e.inner, ErrorBag::NotFoundError);
    assert_eq!(e.message(), "Key not found");
    assert!(registry.get("z").is_none());
    assert_eq!(history(&registry, "k"), vec![call(1)]);
    assert_eq!(registry.get("k").unwrap().total_calls, 1);
}

#[test]
fn recent_calls_are_newest_first_and_clamped() {
    let registry = filled(5, "k", 4);
    assert_eq!(
        registry.recent_calls("k", None).unwrap(),
        vec![call(4), call(3), call(2), call(1)]
    );
    assert_eq!(registry.recent_calls("k", Some(2)).unwrap(), vec![call(4), call(3)]);
    assert_eq!(registry.recent_calls("k", Some(0)).unwrap(), vec![]);
    assert_eq!(registry.recent_calls("k", Some(4)).unwrap().len(), 4);
    assert_eq!(registry.recent_calls("k", Some(100)).unwrap().len(), 4);
    assert_eq!(registry.recent_calls("k", Some(usize::MAX)).unwrap().len(), 4);
}

#[test]
fn three_calls_in_a_queue_of_two() {
    let registry = filled(2, "k", 3);
    assert_eq!(registry.recent_calls("k", Some(10)).unwrap(), vec![call(3), call(2)]);
}

#[test]
fn unknown_key_is_not_found() {
    let registry = filled(2, "k", 3);
    let e = registry.recent_calls("z", Some(5)).unwrap_err();
    assert_eq!(e.inner, ErrorBag::NotFoundError);
    let e = registry.recent_methods("z", Some(5)).unwrap_err();
    assert_eq!(e.inner, ErrorBag::NotFoundError);
    let e = SharedData::new(1).recent_calls("k", None).unwrap_err();
    assert_eq!(e.inner, ErrorBag::NotFoundError);
}

#[test]
fn recent_methods_flatten_calls_newest_first() {
    let mut registry = SharedData::new(5);
    registry.record_request_seen("k");
    let first = call_with_methods(1, &["a", "b"]);
    let second = call_with_methods(2, &[]);
    let third = call_with_methods(3, &["c"]);
    registry.append_call("k", first.clone()).unwrap();
    registry.append_call("k", second).unwrap();
    registry.append_call("k", third.clone()).unwrap();
    let entry = |c: &CallInfo, id: &str, method: &str| MethodInfo {
        id: id.to_string(),
        method: method.to_string(),
        date: c.date,
        response_time: c.response_time,
    };
    assert_eq!(
        registry.recent_methods("k", None).unwrap(),
        vec![entry(&third, "30", "c"), entry(&first, "10", "a"), entry(&first, "11", "b")]
    );
    assert_eq!(registry.recent_methods("k", Some(1)).unwrap(), vec![entry(&third, "30", "c")]);
    assert_eq!(registry.recent_methods("k", Some(2)).unwrap(), vec![entry(&third, "30", "c")]);
    assert_eq!(registry.recent_methods("k", Some(0)).unwrap(), vec![]);
}

#[test]
fn method_entry_ids_are_json_text() {
    let mut c = call(1);
    c.parsed_request = vec![
        ParsedRequest { id: JsonValue::String("abc".to_string()), method: "m".to_string(), params: vec![] },
        ParsedRequest { id: JsonValue::Null, method: "n".to_string(), params: vec![] },
        ParsedRequest { id: JsonValue::Number("5".to_string()), method: "o".to_string(), params: vec![] },
    ];
    let ids: Vec<String> = method_entries(&vec![c]).into_iter().map(|m| m.id).collect();
    assert_eq!(ids, vec!["\"abc\"", "null", "5"]);
}

#[test]
fn newest_calls_of_an_empty_history_is_empty() {
    let history = std::collections::VecDeque::new();
    assert_eq!(newest_calls(&history, None), vec![]);
    assert_eq!(newest_calls(&history, Some(3)), vec![]);
}

#[test]
fn call_info_clone_is_equal() {
    let c = call_with_methods(4, &["x", "y"]);
    assert_eq!(c.clone(), c);
}

use llm_gateway::auth::{ApiKeyRole, ValidatedApiKey};
use llm_gateway::models::{ChatCompletionChunk, Usage};
use llm_gateway::tracking::{KeyStats, RequestTracker};

fn entry(t: &RequestTracker, k: &str) -> KeyStats {
    t.get_stats(k).unwrap().clone()
}

fn model_count(s: &KeyStats, m: &str) -> Option<u64> {
    s.models_used.iter().find(|(k, _)| k == m).map(|(_, c)| *c)
}

#[test]
fn record_request_counts() {
    let mut t = RequestTracker::new();
    assert!(t.get_stats("k").is_none());
    t.record_request("k", 120, false, 1000);
    t.record_request("k", 30, true, 2000);
    let s = entry(&t, "k");
    assert_eq!(s.request_count, 2);
    assert_eq!(s.error_count, 1);
    assert_eq!(s.total_latency_ms, 150);
    assert_eq!(s.last_request_timestamp, 2000);
    assert_eq!(s.total_prompt_tokens, 0);
    assert!(s.models_used.is_empty());
}

#[test]
fn record_tokens_counts_models_per_answer() {
    let mut t = RequestTracker::new();
    t.record_tokens("k", 3, 5, "m1");
    t.record_tokens("k", 10, 1, "m1");
    t.record_tokens("k", 1, 1, "m2");
    let s = entry(&t, "k");
    assert_eq!(s.total_prompt_tokens, 14);
    assert_eq!(s.total_completion_tokens, 7);
    assert_eq!(model_count(&s, "m1"), Some(2));
    assert_eq!(model_count(&s, "m2"), Some(1));
    assert_eq!(s.request_count, 0);
    assert_eq!(s.last_request_timestamp, 0);
}

#[test]
fn record_order_does_not_matter() {
    let mut a = RequestTracker::new();
    a.record_tokens("k", 3, 5, "m");
    a.record_request("k", 40, true, 777);
    let mut b = RequestTracker::new();
    b.record_request("k", 40, true, 777);
    b.record_tokens("k", 3, 5, "m");
    let (x, y) = (entry(&a, "k"), entry(&b, "k"));
    assert_eq!(
        (x.request_count, x.error_count, x.total_latency_ms, x.total_prompt_tokens, x.total_completion_tokens, x.last_request_timestamp),
        (y.request_count, y.error_count, y.total_latency_ms, y.total_prompt_tokens, y.total_completion_tokens, y.last_request_timestamp)
    );
    assert_eq!(x.models_used, y.models_used);
}

#[test]
fn counters_saturate() {
    let mut t = RequestTracker::new();
    t.record_request("k", u64::MAX, false, 1);
    t.record_request("k", 5, false, 2);
    t.record_tokens("k", u64::MAX, 1, "m");
    t.record_tokens("k", 1, 1, "m");
    let s = entry(&t, "k");
    assert_eq!(s.total_latency_ms, u64::MAX);
    assert_eq!(s.total_prompt_tokens, u64::MAX);
    assert_eq!(s.total_completion_tokens, 2);
}

#[test]
fn export_then_import_round_trip() {
    let mut t = RequestTracker::new();
    t.record_request("a", 1, false, 10);
    t.record_tokens("a", 2, 3, "m");
    t.record_request("b", 4, true, 20);
    let entries: Vec<(String, KeyStats)> = t.get_all_stats().clone();
    assert_eq!(entries.len(), 2);
    let u = RequestTracker::from_entries(entries).unwrap();
    for k in ["a", "b"] {
        let (x, y) = (entry(&t, k), entry(&u, k));
        assert_eq!((x.request_count, x.error_count, x.total_latency_ms, x.last_request_timestamp), (y.request_count, y.error_count, y.total_latency_ms, y.last_request_timestamp));
        assert_eq!(x.models_used, y.models_used);
    }
    assert!(u.get_stats("c").is_none());
}

#[test]
fn import_refuses_repeated_keys() {
    let dup = vec![("a".to_string(), KeyStats::new()), ("a".to_string(), KeyStats::new())];
    assert!(RequestTracker::from_entries(dup).is_none());
    let mut s = KeyStats::new();
    s.models_used = vec![("m".to_string(), 1), ("m".to_string(), 2)];
    assert!(RequestTracker::from_entries(vec![("a".to_string(), s)]).is_none());
    assert!(RequestTracker::from_entries(vec![]).is_some());
}

#[test]
fn responses_are_recorded_under_caller_or_unknown() {
    let mut t = RequestTracker::new();
    let c = ValidatedApiKey { key: "k".to_string(), role: ApiKeyRole::User };
    t.record_response(Some(&c), 503, 12, 5);
    t.record_response(Some(&c), 499, 8, 6);
    t.record_response(None, 200, 1, 7);
    let s = entry(&t, "k");
    assert_eq!((s.request_count, s.error_count, s.total_latency_ms), (2, 1, 20));
    assert_eq!(entry(&t, "unknown").request_count, 1);
}

#[test]
fn chunk_usage_is_recorded_only_when_present() {
    let mut t = RequestTracker::new();
    let mut c = ChatCompletionChunk {
        id: "id".to_string(),
        object: "chat.completion.chunk".to_string(),
        created: 0,
        model: "m".to_string(),
        choices: vec![],
        usage: None,
    };
    t.record_chunk_usage("k", &c);
    assert!(t.get_stats("k").is_none());
    c.usage = Some(Usage::new(3, 2));
    t.record_chunk_usage("k", &c);
    let s = entry(&t, "k");
    assert_eq!((s.total_prompt_tokens, s.total_completion_tokens), (3, 2));
    assert_eq!(model_count(&s, "m"), Some(1));
}

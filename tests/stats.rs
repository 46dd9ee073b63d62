use llm_gateway::auth::{ApiKeyRole, ValidatedApiKey};
use llm_gateway::stats::{get_stats, mask_key, StatsQuery, StatsReply};
use llm_gateway::tracking::RequestTracker;

fn caller(k: &str, role: ApiKeyRole) -> ValidatedApiKey {
    ValidatedApiKey { key: k.to_string(), role }
}

#[test]
fn masking_boundaries() {
    assert_eq!(mask_key(""), "***");
    assert_eq!(mask_key("a"), "***");
    assert_eq!(mask_key("abcdefgh"), "***");
    assert_eq!(mask_key("abcdefghi"), "abcd***fghi");
    assert_eq!(mask_key("sk-0123456789"), "sk-0***6789");
}

#[test]
fn stats_roles_scenario() {
    let mut t = RequestTracker::new();
    t.record_request("u1", 10, false, 100);
    t.record_tokens("u1", 3, 4, "m");
    let q = StatsQuery { key: Some("u1".to_string()) };
    match get_stats(&t, &caller("a1", ApiKeyRole::Admin), &q) {
        StatsReply::One(r) => {
            assert_eq!(r.api_key, "***");
            assert_eq!(r.request_count, 1);
            assert_eq!(r.total_prompt_tokens, 3);
        }
        _ => panic!("expected u1's stats"),
    }
    let q2 = StatsQuery { key: Some("zzz".to_string()) };
    match get_stats(&t, &caller("u1", ApiKeyRole::User), &q2) {
        StatsReply::One(r) => {
            assert_eq!(r.request_count, 1);
            assert_eq!(r.total_completion_tokens, 4);
        }
        _ => panic!("expected the caller's own stats"),
    }
    assert!(matches!(get_stats(&t, &caller("a1", ApiKeyRole::Admin), &q2), StatsReply::NotFound));
}

#[test]
fn user_without_stats_gets_zeroes() {
    let t = RequestTracker::new();
    match get_stats(&t, &caller("user-key-123", ApiKeyRole::User), &StatsQuery { key: None }) {
        StatsReply::One(r) => {
            assert_eq!(r.api_key, "user***-123");
            assert_eq!((r.request_count, r.error_count, r.total_latency_ms, r.last_request_timestamp), (0, 0, 0, 0));
            assert!(r.models_used.is_empty());
        }
        _ => panic!("expected zero stats"),
    }
}

#[test]
fn admin_without_key_lists_all() {
    let mut t = RequestTracker::new();
    t.record_request("first-key-1", 1, false, 1);
    t.record_request("second-key-2", 2, false, 2);
    match get_stats(&t, &caller("a", ApiKeyRole::Admin), &StatsQuery { key: None }) {
        StatsReply::All(v) => {
            assert_eq!(v.len(), 2);
            let mut names: Vec<String> = v.iter().map(|r| r.api_key.clone()).collect();
            names.sort();
            assert_eq!(names, vec!["firs***ey-1", "seco***ey-2"]);
        }
        _ => panic!("expected every key"),
    }
}


//! The stats endpoint: which statistics a caller may see, with keys masked.
use vstd::prelude::*;
use vstd::string::*;
use crate::auth::{ApiKeyRole, ValidatedApiKey};
use crate::tracking::{
    entries_valid, model_counts, stats_or_zero, KeyStats, KeyStatsView, RequestTracker,
};

verus! {

/// The query of a stats request: the key asked about, if any.
#[derive(Clone, Debug)]
pub struct StatsQuery {
    pub key: Option<String>,
}

/// A key as shown to callers: `***` for a key of at most eight characters,
/// else its first four characters, `***` and its last four.
pub open spec fn masked(key: Seq<char>) -> Seq<char> {
    if key.len() <= 8 {
        "***"@
    } else {
        key.subrange(0, 4) + "***"@ + key.subrange(key.len() - 4, key.len() as int)
    }
}

pub fn mask_key(key: &str) -> (r: String)
    ensures
        r@ == masked(key@),
{
    let n = key.unicode_len();
    if n <= 8 {
        String::from_str("***")
    } else {
        let prefix = key.substring_char(0, 4);
        let suffix = key.substring_char(n - 4, n);
        String::from_str(prefix).concat("***").concat(suffix)
    }
}

/// The statistics of one key as returned to a caller. The average latency is
/// left to the presentation layer: it is `total_latency_ms / request_count`,
/// and zero where there were no requests.
#[derive(Clone, Debug)]
pub struct StatsReport {
    pub api_key: String,
    pub request_count: u64,
    pub error_count: u64,
    pub total_latency_ms: u64,
    pub total_prompt_tokens: u64,
    pub total_completion_tokens: u64,
    pub last_request_timestamp: u64,
    pub models_used: Vec<(String, u64)>,
}

/// `r` reports statistics `s` of key `key`.
pub open spec fn reports(r: StatsReport, key: Seq<char>, s: KeyStatsView) -> bool {
    &&& r.api_key@ == masked(key)
    &&& r.request_count == s.request_count
    &&& r.error_count == s.error_count
    &&& r.total_latency_ms == s.total_latency_ms
    &&& r.total_prompt_tokens == s.total_prompt_tokens
    &&& r.total_completion_tokens == s.total_completion_tokens
    &&& r.last_request_timestamp == s.last_request_timestamp
    &&& model_counts(r.models_used@) == s.models_used
}

fn copy_models(models: &Vec<(String, u64)>) -> (r: Vec<(String, u64)>)
    ensures
        r@ == models@,
{
    let mut r: Vec<(String, u64)> = Vec::new();
    let mut i: usize = 0;
    while i < models.len()
        invariant
            0 <= i <= models@.len(),
            r@ == models@.subrange(0, i as int),
        decreases models@.len() - i,
    {
        let k = models[i].0.clone();
        r.push((k, models[i].1));
        proof {
            assert(r@ =~= models@.subrange(0, i + 1));
        }
        i = i + 1;
    }
    proof {
        assert(models@.subrange(0, models@.len() as int) =~= models@);
    }
    r
}

/// The report of `stats` under `key`, masked.
pub fn build_stats_response(key: &str, stats: &KeyStats) -> (r: StatsReport)
    ensures
        reports(r, key@, stats@),
        r.models_used@ == stats.models_used@,
{
    StatsReport {
        api_key: mask_key(key),
        request_count: stats.request_count,
        error_count: stats.error_count,
        total_latency_ms: stats.total_latency_ms,
        total_prompt_tokens: stats.total_prompt_tokens,
        total_completion_tokens: stats.total_completion_tokens,
        last_request_timestamp: stats.last_request_timestamp,
        models_used: copy_models(&stats.models_used),
    }
}

/// The answer of the stats endpoint.
pub enum StatsReply {
    /// The statistics of one key.
    One(StatsReport),
    /// The statistics of every key.
    All(Vec<StatsReport>),
    /// An admin asked about a key that has no statistics.
    NotFound,
}

/// What a caller gets from the stats endpoint. A user always gets their own
/// statistics (zero where there are none yet), whatever the query says. An
/// admin gets the statistics of the key asked about, or `NotFound` where it
/// has none, or, with no key asked, those of every key.
pub fn get_stats(tracker: &RequestTracker, caller: &ValidatedApiKey, query: &StatsQuery) -> (r:
    StatsReply)
    requires
        tracker.wf(),
    ensures
        caller.role == ApiKeyRole::User ==> r is One && reports(
            r->One_0,
            caller.key@,
            stats_or_zero(tracker@, caller.key@),
        ),
        caller.role == ApiKeyRole::Admin ==> match query.key {
            Some(k) => if tracker@.contains_key(k@) {
                r is One && reports(r->One_0, k@, tracker@[k@])
            } else {
                r is NotFound
            },
            None => r is All && r->All_0@.len() == tracker.entries().len() && forall|i: int|
                0 <= i < r->All_0@.len() ==> reports(
                    #[trigger] r->All_0@[i],
                    tracker.entries()[i].0@,
                    tracker.entries()[i].1@,
                ),
        },
{
    match caller.role {
        ApiKeyRole::User => {
            match tracker.get_stats(caller.key.as_str()) {
                Some(s) => StatsReply::One(build_stats_response(caller.key.as_str(), s)),
                None => {
                    let r = StatsReport {
                        api_key: mask_key(caller.key.as_str()),
                        request_count: 0,
                        error_count: 0,
                        total_latency_ms: 0,
                        total_prompt_tokens: 0,
                        total_completion_tokens: 0,
                        last_request_timestamp: 0,
                        models_used: Vec::new(),
                    };
                    proof {
                        assert(model_counts(r.models_used@) =~= Map::empty());
                    }
                    StatsReply::One(r)
                },
            }
        },
        ApiKeyRole::Admin => {
            match &query.key {
                Some(k) => {
                    match tracker.get_stats(k.as_str()) {
                        Some(s) => StatsReply::One(build_stats_response(k.as_str(), s)),
                        None => StatsReply::NotFound,
                    }
                },
                None => {
                    let all = tracker.get_all_stats();
                    let mut out: Vec<StatsReport> = Vec::new();
                    let mut i: usize = 0;
                    while i < all.len()
                        invariant
                            0 <= i <= all@.len(),
                            all@ == tracker.entries(),
                            entries_valid(all@),
                            out@.len() == i,
                            forall|j: int|
                                0 <= j < i ==> reports(
                                    #[trigger] out@[j],
                                    all@[j].0@,
                                    all@[j].1@,
                                ),
                        decreases all@.len() - i,
                    {
                        out.push(build_stats_response(all[i].0.as_str(), &all[i].1));
                        i = i + 1;
                    }
                    StatsReply::All(out)
                },
            }
        },
    }
}

} // verus!

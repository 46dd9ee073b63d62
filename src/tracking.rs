//! Per-key usage counters: requests, errors, latency, tokens and models,
//! written after each request and each answer, read by the stats endpoint,
//! and exported and imported for persistence.
use vstd::prelude::*;
use vstd::string::*;
use crate::auth::ValidatedApiKey;
use crate::keyed::{find_key, keys_unique, lemma_lookup, lemma_push, lemma_update, to_map};
use crate::models::{ChatCompletionChunk, ChatCompletionResponse};

verus! {

/// Addition that stops at the largest `u64` instead of overflowing, so that
/// counters never decrease.
pub open spec fn sat_add(a: u64, b: u64) -> u64 {
    if a + b > u64::MAX {
        u64::MAX
    } else {
        (a + b) as u64
    }
}

/// The counters of one key, as mathematical values.
pub struct KeyStatsView {
    pub request_count: u64,
    pub error_count: u64,
    pub total_latency_ms: u64,
    pub total_prompt_tokens: u64,
    pub total_completion_tokens: u64,
    pub models_used: Map<Seq<char>, u64>,
    pub last_request_timestamp: u64,
}

/// Per-key statistics. `models_used` counts answers per model, each model
/// once; `last_request_timestamp` is in unix milliseconds.
#[derive(Clone, Debug)]
pub struct KeyStats {
    pub request_count: u64,
    pub error_count: u64,
    pub total_latency_ms: u64,
    pub total_prompt_tokens: u64,
    pub total_completion_tokens: u64,
    pub models_used: Vec<(String, u64)>,
    pub last_request_timestamp: u64,
}

pub open spec fn model_counts(s: Seq<(String, u64)>) -> Map<Seq<char>, u64> {
    to_map(s, |c: u64| c)
}

impl View for KeyStats {
    type V = KeyStatsView;

    open spec fn view(&self) -> KeyStatsView {
        KeyStatsView {
            request_count: self.request_count,
            error_count: self.error_count,
            total_latency_ms: self.total_latency_ms,
            total_prompt_tokens: self.total_prompt_tokens,
            total_completion_tokens: self.total_completion_tokens,
            models_used: model_counts(self.models_used@),
            last_request_timestamp: self.last_request_timestamp,
        }
    }
}

/// Statistics of a key never seen: all zero.
pub open spec fn zero_stats() -> KeyStatsView {
    KeyStatsView {
        request_count: 0,
        error_count: 0,
        total_latency_ms: 0,
        total_prompt_tokens: 0,
        total_completion_tokens: 0,
        models_used: Map::empty(),
        last_request_timestamp: 0,
    }
}

/// One request recorded: counted, its latency added, the time set, and an
/// error counted where it failed.
pub open spec fn after_request(s: KeyStatsView, latency_ms: u64, is_error: bool, now_ms: u64) -> KeyStatsView {
    KeyStatsView {
        request_count: sat_add(s.request_count, 1),
        error_count: if is_error {
            sat_add(s.error_count, 1)
        } else {
            s.error_count
        },
        total_latency_ms: sat_add(s.total_latency_ms, latency_ms),
        last_request_timestamp: now_ms,
        ..s
    }
}

/// The count of answers attributed to `model` so far.
pub open spec fn model_count(m: Map<Seq<char>, u64>, model: Seq<char>) -> u64 {
    if m.contains_key(model) {
        m[model]
    } else {
        0
    }
}

/// One answer's tokens recorded: both counts added and the answer counted
/// once for its model. Request counters and time are left alone.
pub open spec fn after_tokens(s: KeyStatsView, prompt: u64, completion: u64, model: Seq<char>) -> KeyStatsView {
    KeyStatsView {
        total_prompt_tokens: sat_add(s.total_prompt_tokens, prompt),
        total_completion_tokens: sat_add(s.total_completion_tokens, completion),
        models_used: s.models_used.insert(model, sat_add(model_count(s.models_used, model), 1)),
        ..s
    }
}

/// The statistics of key `k`, zero where it has none.
pub open spec fn stats_or_zero(m: Map<Seq<char>, KeyStatsView>, k: Seq<char>) -> KeyStatsView {
    if m.contains_key(k) {
        m[k]
    } else {
        zero_stats()
    }
}

/// The tracker's map after `record_request`.
pub open spec fn tracker_after_request(
    m: Map<Seq<char>, KeyStatsView>,
    k: Seq<char>,
    latency_ms: u64,
    is_error: bool,
    now_ms: u64,
) -> Map<Seq<char>, KeyStatsView> {
    m.insert(k, after_request(stats_or_zero(m, k), latency_ms, is_error, now_ms))
}

/// The tracker's map after `record_tokens`.
pub open spec fn tracker_after_tokens(
    m: Map<Seq<char>, KeyStatsView>,
    k: Seq<char>,
    prompt: u64,
    completion: u64,
    model: Seq<char>,
) -> Map<Seq<char>, KeyStatsView> {
    m.insert(k, after_tokens(stats_or_zero(m, k), prompt, completion, model))
}

impl KeyStats {
    pub open spec fn wf(&self) -> bool {
        keys_unique(self.models_used@)
    }

    /// Statistics of a key never seen: all zero.
    pub fn new() -> (r: KeyStats)
        ensures
            r.wf(),
            r@ == zero_stats(),
    {
        let r = KeyStats {
            request_count: 0,
            error_count: 0,
            total_latency_ms: 0,
            total_prompt_tokens: 0,
            total_completion_tokens: 0,
            models_used: Vec::new(),
            last_request_timestamp: 0,
        };
        proof {
            assert(model_counts(r.models_used@) =~= Map::empty());
        }
        r
    }

    fn add_request(&mut self, latency_ms: u64, is_error: bool, now_ms: u64)
        requires
            old(self).wf(),
        ensures
            final(self).wf(),
            final(self)@ == after_request(old(self)@, latency_ms, is_error, now_ms),
    {
        self.request_count = self.request_count.saturating_add(1);
        self.total_latency_ms = self.total_latency_ms.saturating_add(latency_ms);
        self.last_request_timestamp = now_ms;
        if is_error {
            self.error_count = self.error_count.saturating_add(1);
        }
    }

    fn add_tokens(&mut self, prompt: u64, completion: u64, model: &String)
        requires
            old(self).wf(),
        ensures
            final(self).wf(),
            final(self)@ == after_tokens(old(self)@, prompt, completion, model@),
    {
        self.total_prompt_tokens = self.total_prompt_tokens.saturating_add(prompt);
        self.total_completion_tokens = self.total_completion_tokens.saturating_add(completion);
        let ghost before = self.models_used@;
        match find_key(&self.models_used, model) {
            Some(i) => {
                let c = self.models_used[i].1;
                proof {
                    lemma_lookup(before, |c: u64| c, i as int);
                }
                let k = self.models_used[i].0.clone();
                let n = c.saturating_add(1);
                self.models_used.set(i, (k, n));
                proof {
                    lemma_update(before, |c: u64| c, i as int, (k, n));
                }
            },
            None => {
                let k = model.clone();
                self.models_used.push((k, 1));
                proof {
                    lemma_push(before, |c: u64| c, (k, 1u64));
                }
            },
        }
    }
}

/// Whether exported entries can be imported: keys unique, and each entry's
/// model counts with unique models.
pub open spec fn entries_valid(s: Seq<(String, KeyStats)>) -> bool {
    &&& keys_unique(s)
    &&& forall|i: int| 0 <= i < s.len() ==> (#[trigger] s[i]).1.wf()
}

/// Usage counters for all keys. Keys are added on first use and never
/// removed.
pub struct RequestTracker {
    stats: Vec<(String, KeyStats)>,
}

impl View for RequestTracker {
    type V = Map<Seq<char>, KeyStatsView>;

    closed spec fn view(&self) -> Map<Seq<char>, KeyStatsView> {
        to_map(self.stats@, |s: KeyStats| s@)
    }
}

impl RequestTracker {
    pub closed spec fn wf(&self) -> bool {
        entries_valid(self.stats@)
    }

    /// The entries behind the map, as `get_all_stats` exposes them.
    pub closed spec fn entries(&self) -> Seq<(String, KeyStats)> {
        self.stats@
    }

    pub fn new() -> (r: RequestTracker)
        ensures
            r.wf(),
            r@ == Map::<Seq<char>, KeyStatsView>::empty(),
    {
        let r = RequestTracker { stats: Vec::new() };
        proof {
            assert(r@ =~= Map::<Seq<char>, KeyStatsView>::empty());
        }
        r
    }

    /// The position of `key`'s entry, creating a zeroed one where it has none.
    fn entry_for(&mut self, key: &str) -> (i: usize)
        requires
            old(self).wf(),
        ensures
            final(self).wf(),
            i < final(self).stats@.len(),
            final(self).stats@[i as int].0@ == key@,
            final(self).stats@[i as int].1@ == stats_or_zero(old(self)@, key@),
            final(self)@ == old(self)@.insert(key@, stats_or_zero(old(self)@, key@)),
    {
        let k = key.to_owned();
        let ghost before = self.stats@;
        match find_key(&self.stats, &k) {
            Some(i) => {
                proof {
                    lemma_lookup(before, |s: KeyStats| s@, i as int);
                    assert(self@ =~= self@.insert(key@, stats_or_zero(self@, key@)));
                }
                i
            },
            None => {
                let z = KeyStats::new();
                let ghost e = (k, z);
                self.stats.push((k, z));
                proof {
                    lemma_push(before, |s: KeyStats| s@, e);
                    assert(!to_map(before, |s: KeyStats| s@).contains_key(key@));
                }
                self.stats.len() - 1
            },
        }
    }

    /// Records a completed request of `api_key` at time `now_ms` (unix
    /// milliseconds): one more request, its latency added, the time set, and
    /// one more error where it failed.
    pub fn record_request(&mut self, api_key: &str, latency_ms: u64, is_error: bool, now_ms: u64)
        requires
            old(self).wf(),
        ensures
            final(self).wf(),
            final(self)@ == tracker_after_request(old(self)@, api_key@, latency_ms, is_error, now_ms),
    {
        let i = self.entry_for(api_key);
        let ghost mid = self.stats@;
        let (k, mut s) = self.stats.remove(i);
        s.add_request(latency_ms, is_error, now_ms);
        self.stats.insert(i, (k, s));
        proof {
            assert(self.stats@ =~= mid.update(i as int, (k, s)));
            lemma_update(mid, |s: KeyStats| s@, i as int, (k, s));
            assert(self@ =~= tracker_after_request(old(self)@, api_key@, latency_ms, is_error, now_ms));
        }
    }

    /// Records the tokens of one answer of `model` for `api_key`; request
    /// counters and time are left alone.
    pub fn record_tokens(
        &mut self,
        api_key: &str,
        prompt_tokens: u64,
        completion_tokens: u64,
        model: &str,
    )
        requires
            old(self).wf(),
        ensures
            final(self).wf(),
            final(self)@ == tracker_after_tokens(
                old(self)@,
                api_key@,
                prompt_tokens,
                completion_tokens,
                model@,
            ),
    {
        let m = model.to_owned();
        let i = self.entry_for(api_key);
        let ghost mid = self.stats@;
        let (k, mut s) = self.stats.remove(i);
        s.add_tokens(prompt_tokens, completion_tokens, &m);
        self.stats.insert(i, (k, s));
        proof {
            assert(self.stats@ =~= mid.update(i as int, (k, s)));
            lemma_update(mid, |s: KeyStats| s@, i as int, (k, s));
            assert(self@ =~= tracker_after_tokens(
                old(self)@,
                api_key@,
                prompt_tokens,
                completion_tokens,
                model@,
            ));
        }
    }

    /// The statistics of `api_key`, if it has any.
    pub fn get_stats(&self, api_key: &str) -> (r: Option<&KeyStats>)
        requires
            self.wf(),
        ensures
            r is Some <==> self@.contains_key(api_key@),
            r is Some ==> r->0@ == self@[api_key@] && r->0.wf(),
    {
        let k = api_key.to_owned();
        match find_key(&self.stats, &k) {
            Some(i) => {
                proof {
                    lemma_lookup(self.stats@, |s: KeyStats| s@, i as int);
                }
                Some(&self.stats[i].1)
            },
            None => None,
        }
    }

    /// All entries, each key once.
    pub fn get_all_stats(&self) -> (r: &Vec<(String, KeyStats)>)
        requires
            self.wf(),
        ensures
            r@ == self.entries(),
            entries_valid(r@),
            to_map(r@, |s: KeyStats| s@) == self@,
    {
        &self.stats
    }

    /// A tracker holding exactly the given entries; `None` where a key or a
    /// key's model repeats.
    pub fn from_entries(entries: Vec<(String, KeyStats)>) -> (r: Option<RequestTracker>)
        ensures
            r is Some <==> entries_valid(entries@),
            r is Some ==> r->0.wf() && r->0@ == to_map(entries@, |s: KeyStats| s@),
    {
        if entries_valid_exec(&entries) {
            Some(RequestTracker { stats: entries })
        } else {
            None
        }
    }

    /// Records the request that just completed with HTTP `status` after
    /// `latency_ms`, under the caller's key or `unknown` where no caller was
    /// authenticated; a status of 500 or above counts as an error.
    pub fn record_response(
        &mut self,
        caller: Option<&ValidatedApiKey>,
        status: u16,
        latency_ms: u64,
        now_ms: u64,
    )
        requires
            old(self).wf(),
        ensures
            final(self).wf(),
            final(self)@ == tracker_after_request(
                old(self)@,
                match caller {
                    Some(c) => c.key@,
                    None => "unknown"@,
                },
                latency_ms,
                status >= 500,
                now_ms,
            ),
    {
        let key = match caller {
            Some(c) => c.key.clone(),
            None => String::from_str("unknown"),
        };
        self.record_request(key.as_str(), latency_ms, status >= 500, now_ms);
    }

    /// Records the token usage of a complete answer for `api_key`.
    pub fn record_usage(&mut self, api_key: &str, resp: &ChatCompletionResponse)
        requires
            old(self).wf(),
        ensures
            final(self).wf(),
            final(self)@ == tracker_after_tokens(
                old(self)@,
                api_key@,
                resp.usage.prompt_tokens,
                resp.usage.completion_tokens,
                resp.model@,
            ),
    {
        self.record_tokens(
            api_key,
            resp.usage.prompt_tokens,
            resp.usage.completion_tokens,
            resp.model.as_str(),
        );
    }

    /// Records the token usage carried by a streamed chunk, which only the
    /// terminal chunk has; other chunks change nothing.
    pub fn record_chunk_usage(&mut self, api_key: &str, chunk: &ChatCompletionChunk)
        requires
            old(self).wf(),
        ensures
            final(self).wf(),
            final(self)@ == match chunk.usage {
                Some(u) => tracker_after_tokens(
                    old(self)@,
                    api_key@,
                    u.prompt_tokens,
                    u.completion_tokens,
                    chunk.model@,
                ),
                None => old(self)@,
            },
    {
        match &chunk.usage {
            Some(u) => self.record_tokens(
                api_key,
                u.prompt_tokens,
                u.completion_tokens,
                chunk.model.as_str(),
            ),
            None => {},
        }
    }
}

/// Recording a request and recording an answer's tokens give the same
/// statistics in either order, for the same key or for two keys: the two
/// touch different counters.
pub proof fn lemma_record_order_irrelevant(
    m: Map<Seq<char>, KeyStatsView>,
    request_key: Seq<char>,
    latency_ms: u64,
    is_error: bool,
    now_ms: u64,
    token_key: Seq<char>,
    prompt: u64,
    completion: u64,
    model: Seq<char>,
)
    ensures
        tracker_after_request(
            tracker_after_tokens(m, token_key, prompt, completion, model),
            request_key,
            latency_ms,
            is_error,
            now_ms,
        ) == tracker_after_tokens(
            tracker_after_request(m, request_key, latency_ms, is_error, now_ms),
            token_key,
            prompt,
            completion,
            model,
        ),
{
    let a = tracker_after_request(
        tracker_after_tokens(m, token_key, prompt, completion, model),
        request_key,
        latency_ms,
        is_error,
        now_ms,
    );
    let b = tracker_after_tokens(
        tracker_after_request(m, request_key, latency_ms, is_error, now_ms),
        token_key,
        prompt,
        completion,
        model,
    );
    if request_key == token_key {
        assert(after_request(
            after_tokens(stats_or_zero(m, token_key), prompt, completion, model),
            latency_ms,
            is_error,
            now_ms,
        ) == after_tokens(
            after_request(stats_or_zero(m, token_key), latency_ms, is_error, now_ms),
            prompt,
            completion,
            model,
        ));
    }
    assert(a =~= b);
}

/// Saving and loading give back the same tracker: the entries that
/// `get_all_stats` exposes are accepted by `from_entries`, and rebuild
/// exactly the same map.
pub proof fn lemma_export_import(t: &RequestTracker)
    requires
        t.wf(),
    ensures
        entries_valid(t.entries()),
        to_map(t.entries(), |s: KeyStats| s@) == t@,
{
}

/// The tracking step of the pipeline, holding the shared tracker handle
/// (`T`, such as a lock around a `RequestTracker`); each completed request
/// goes to `RequestTracker::record_response`.
pub struct TrackingMiddleware<T> {
    pub tracker: T,
}

impl<T> TrackingMiddleware<T> {
    pub fn new(tracker: T) -> (r: TrackingMiddleware<T>)
        ensures
            r.tracker == tracker,
    {
        TrackingMiddleware { tracker }
    }
}

/// An inner service whose completed requests are recorded in the tracker.
pub struct TrackingMiddlewareService<S, T> {
    pub service: S,
    pub tracker: T,
}

impl<S, T> TrackingMiddlewareService<S, T> {
    pub fn new(service: S, tracker: T) -> (r: TrackingMiddlewareService<S, T>)
        ensures
            r.service == service,
            r.tracker == tracker,
    {
        TrackingMiddlewareService { service, tracker }
    }
}

fn models_unique_exec(models: &Vec<(String, u64)>) -> (r: bool)
    ensures
        r == keys_unique(models@),
{
    let mut i: usize = 0;
    while i < models.len()
        invariant
            0 <= i <= models@.len(),
            forall|a: int, b: int|
                0 <= a < i && 0 <= b < models@.len() && a != b ==> #[trigger] models@[a].0@
                    != #[trigger] models@[b].0@,
        decreases models@.len() - i,
    {
        let mut j: usize = 0;
        while j < models.len()
            invariant
                0 <= i < models@.len(),
                0 <= j <= models@.len(),
                forall|a: int, b: int|
                    0 <= a < i && 0 <= b < models@.len() && a != b ==> #[trigger] models@[a].0@
                        != #[trigger] models@[b].0@,
                forall|b: int| 0 <= b < j && b != i ==> models@[i as int].0@ != #[trigger] models@[b].0@,
            decreases models@.len() - j,
        {
            if i != j && models[i].0 == models[j].0 {
                return false;
            }
            j = j + 1;
        }
        i = i + 1;
    }
    true
}

fn entries_valid_exec(entries: &Vec<(String, KeyStats)>) -> (r: bool)
    ensures
        r == entries_valid(entries@),
{
    let mut i: usize = 0;
    while i < entries.len()
        invariant
            0 <= i <= entries@.len(),
            forall|a: int, b: int|
                0 <= a < i && 0 <= b < entries@.len() && a != b ==> #[trigger] entries@[a].0@
                    != #[trigger] entries@[b].0@,
            forall|a: int| 0 <= a < i ==> (#[trigger] entries@[a]).1.wf(),
        decreases entries@.len() - i,
    {
        if !models_unique_exec(&entries[i].1.models_used) {
            return false;
        }
        let mut j: usize = 0;
        while j < entries.len()
            invariant
                0 <= i < entries@.len(),
                0 <= j <= entries@.len(),
                forall|a: int, b: int|
                    0 <= a < i && 0 <= b < entries@.len() && a != b ==> #[trigger] entries@[a].0@
                        != #[trigger] entries@[b].0@,
                forall|b: int| 0 <= b < j && b != i ==> entries@[i as int].0@ != #[trigger] entries@[b].0@,
            decreases entries@.len() - j,
        {
            if i != j && entries[i].0 == entries[j].0 {
                return false;
            }
            j = j + 1;
        }
        i = i + 1;
    }
    true
}

} // verus!

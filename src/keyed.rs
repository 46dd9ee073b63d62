//! Entries keyed by a string, each key at most once, seen as a map from the
//! key's characters to a model of the value.
use vstd::prelude::*;

verus! {

/// No two entries share a key.
pub open spec fn keys_unique<V>(s: Seq<(String, V)>) -> bool {
    forall|i: int, j: int|
        0 <= i < s.len() && 0 <= j < s.len() && i != j ==> #[trigger] s[i].0@ != #[trigger] s[j].0@
}

/// Some entry has key `k`.
pub open spec fn has_key<V>(s: Seq<(String, V)>, k: Seq<char>) -> bool {
    exists|i: int| 0 <= i < s.len() && #[trigger] s[i].0@ == k
}

/// The position of the entry with key `k`, if any.
pub open spec fn index_of<V>(s: Seq<(String, V)>, k: Seq<char>) -> int {
    choose|i: int| 0 <= i < s.len() && #[trigger] s[i].0@ == k
}

/// The entries as a map, each value seen through `f`.
pub open spec fn to_map<V, W>(s: Seq<(String, V)>, f: spec_fn(V) -> W) -> Map<Seq<char>, W> {
    Map::new(|k: Seq<char>| has_key(s, k), |k: Seq<char>| f(s[index_of(s, k)].1))
}

pub proof fn lemma_lookup<V, W>(s: Seq<(String, V)>, f: spec_fn(V) -> W, i: int)
    requires
        keys_unique(s),
        0 <= i < s.len(),
    ensures
        to_map(s, f).contains_key(s[i].0@),
        to_map(s, f)[s[i].0@] == f(s[i].1),
{
    let k = s[i].0@;
    assert(has_key(s, k));
    let j = index_of(s, k);
    assert(s[j].0@ == k);
}

pub proof fn lemma_update<V, W>(s: Seq<(String, V)>, f: spec_fn(V) -> W, i: int, e: (String, V))
    requires
        keys_unique(s),
        0 <= i < s.len(),
        e.0@ == s[i].0@,
    ensures
        keys_unique(s.update(i, e)),
        to_map(s.update(i, e), f) == to_map(s, f).insert(e.0@, f(e.1)),
{
    let t = s.update(i, e);
    assert forall|a: int, b: int| 0 <= a < t.len() && 0 <= b < t.len() && a != b implies #[trigger] t[a].0@
        != #[trigger] t[b].0@ by {
        assert(s[a].0@ != s[b].0@);
    }
    lemma_lookup(t, f, i);
    assert forall|k: Seq<char>| #[trigger] has_key(t, k) == has_key(s, k) by {
        if has_key(s, k) {
            let j = index_of(s, k);
            assert(t[j].0@ == k);
        }
        if has_key(t, k) {
            let j = index_of(t, k);
            assert(s[j].0@ == k);
        }
    }
    assert forall|k: Seq<char>| has_key(t, k) && k != e.0@ implies f(
        t[index_of(t, k)].1,
    ) == f(s[index_of(s, k)].1) by {
        let j = index_of(t, k);
        let j2 = index_of(s, k);
        assert(s[j].0@ == k);
        assert(j == j2);
    }
    assert(to_map(t, f) =~= to_map(s, f).insert(e.0@, f(e.1)));
}

pub proof fn lemma_push<V, W>(s: Seq<(String, V)>, f: spec_fn(V) -> W, e: (String, V))
    requires
        keys_unique(s),
        !has_key(s, e.0@),
    ensures
        keys_unique(s.push(e)),
        to_map(s.push(e), f) == to_map(s, f).insert(e.0@, f(e.1)),
{
    let t = s.push(e);
    let n = s.len() as int;
    assert forall|a: int, b: int| 0 <= a < t.len() && 0 <= b < t.len() && a != b implies #[trigger] t[a].0@
        != #[trigger] t[b].0@ by {
        if a < n && b < n {
            assert(s[a].0@ != s[b].0@);
        } else if a < n {
            assert(s[a].0@ == t[a].0@);
        } else {
            assert(s[b].0@ == t[b].0@);
        }
    }
    lemma_lookup(t, f, n);
    assert forall|k: Seq<char>| #[trigger] has_key(t, k) == (has_key(s, k) || k == e.0@) by {
        if has_key(s, k) {
            let j = index_of(s, k);
            assert(t[j].0@ == k);
        }
        if has_key(t, k) && k != e.0@ {
            let j = index_of(t, k);
            assert(j != n);
            assert(s[j].0@ == k);
        }
    }
    assert forall|k: Seq<char>| has_key(t, k) && k != e.0@ implies f(
        t[index_of(t, k)].1,
    ) == f(s[index_of(s, k)].1) by {
        let j = index_of(t, k);
        let j2 = index_of(s, k);
        assert(j != n);
        assert(s[j].0@ == k);
        assert(j == j2);
    }
    assert(to_map(t, f) =~= to_map(s, f).insert(e.0@, f(e.1)));
}

/// The position of the entry with key `key`, or `None` where there is none.
pub fn find_key<V>(entries: &Vec<(String, V)>, key: &String) -> (r: Option<usize>)
    ensures
        match r {
            Some(i) => i < entries@.len() && entries@[i as int].0@ == key@,
            None => !has_key(entries@, key@),
        },
{
    let mut i: usize = 0;
    while i < entries.len()
        invariant
            0 <= i <= entries@.len(),
            forall|j: int| 0 <= j < i ==> #[trigger] entries@[j].0@ != key@,
        decreases entries@.len() - i,
    {
        if entries[i].0 == *key {
            return Some(i);
        }
        i = i + 1;
    }
    None
}

} // verus!

//! Association lists with unique keys kept in insertion order.
//!
//! The registry-like values of this crate (environment variables, alias
//! tables, theme tables, per-session timers) are small ordered key/value
//! lists; this module gives them one lookup/upsert vocabulary. The spec
//! layer is generic in the key: plugin models instantiate it with viewed
//! keys (`Seq<char>`, `u64`), and the executable helpers on string-keyed
//! vectors are specified against those views.

use vstd::prelude::*;
use crate::text::str_eq;

verus! {

/// The position of the first entry of `m` with key `k`, or `-1` when none
/// has it.
pub open spec fn spec_index_of<K, V>(m: Seq<(K, V)>, k: K) -> int
    decreases m.len(),
{
    if m.len() == 0 {
        -1
    } else if m[0].0 == k {
        0
    } else {
        let r = spec_index_of(m.drop_first(), k);
        if r < 0 {
            -1
        } else {
            r + 1
        }
    }
}

/// `m` has an entry for key `k`.
pub open spec fn spec_has_key<K, V>(m: Seq<(K, V)>, k: K) -> bool {
    spec_index_of(m, k) >= 0
}

/// The value stored under `k`.
pub open spec fn spec_value_of<K, V>(m: Seq<(K, V)>, k: K) -> V {
    m[spec_index_of(m, k)].1
}

/// The keys of `m` are pairwise distinct.
pub open spec fn spec_keys_unique<K, V>(m: Seq<(K, V)>) -> bool {
    forall|i: int, j: int| 0 <= i < j < m.len() ==> m[i].0 != m[j].0
}

/// `m` with `k` bound to `v`: the first entry with key `k` replaced in
/// place, or a new entry appended, as a map insert behaves.
pub open spec fn spec_upsert<K, V>(m: Seq<(K, V)>, k: K, v: V) -> Seq<(K, V)> {
    if spec_has_key(m, k) {
        m.update(spec_index_of(m, k), (k, v))
    } else {
        m.push((k, v))
    }
}

/// `m` without its first entry for `k`, or `m` itself when none has it.
pub open spec fn spec_remove<K, V>(m: Seq<(K, V)>, k: K) -> Seq<(K, V)> {
    if spec_has_key(m, k) {
        m.remove(spec_index_of(m, k))
    } else {
        m
    }
}

/// What `spec_index_of` returns: a first match, or a guarantee that no
/// entry has the key.
pub proof fn lemma_index_of<K, V>(m: Seq<(K, V)>, k: K)
    ensures
        spec_index_of(m, k) >= 0 ==> 0 <= spec_index_of(m, k) < m.len()
            && m[spec_index_of(m, k)].0 == k
            && forall|j: int| 0 <= j < spec_index_of(m, k) ==> m[j].0 != k,
        spec_index_of(m, k) < 0 ==> forall|j: int| 0 <= j < m.len() ==> m[j].0 != k,
    decreases m.len(),
{
    if m.len() == 0 {
    } else if m[0].0 == k {
    } else {
        lemma_index_of(m.drop_first(), k);
        assert(forall|j: int| 1 <= j < m.len() ==> m[j] == m.drop_first()[j - 1]);
    }
}

/// A first match at `i` pins `spec_index_of` to `i`.
pub proof fn lemma_index_found<K, V>(m: Seq<(K, V)>, k: K, i: int)
    requires
        0 <= i < m.len(),
        m[i].0 == k,
        forall|j: int| 0 <= j < i ==> m[j].0 != k,
    ensures
        spec_index_of(m, k) == i,
    decreases i,
{
    if i == 0 {
    } else {
        assert(forall|j: int| 0 <= j < i - 1 ==> m.drop_first()[j] == m[j + 1]);
        lemma_index_found(m.drop_first(), k, i - 1);
    }
}

/// A key is present exactly when some entry has it.
pub proof fn lemma_has_key_exists<K, V>(m: Seq<(K, V)>, k: K)
    ensures
        spec_has_key(m, k) <==> exists|j: int| 0 <= j < m.len() && (#[trigger] m[j]).0 == k,
{
    lemma_index_of(m, k);
    if spec_index_of(m, k) >= 0 {
        assert(m[spec_index_of(m, k)].0 == k);
    }
}

/// Under unique keys, any entry with key `k` is the entry for `k`.
pub proof fn lemma_unique_value<K, V>(m: Seq<(K, V)>, k: K, j: int)
    requires
        spec_keys_unique(m),
        0 <= j < m.len(),
        m[j].0 == k,
    ensures
        spec_index_of(m, k) == j,
        spec_value_of(m, k) == m[j].1,
{
    lemma_index_of(m, k);
    lemma_has_key_exists(m, k);
}

/// The map a key/value sequence denotes: first bindings win.
pub open spec fn map_of_kv<K, V>(m: Seq<(K, V)>) -> Map<K, V> {
    Map::new(|k: K| spec_has_key(m, k), |k: K| spec_value_of(m, k))
}

/// The keys of a string-keyed vector, viewed; values carried unchanged.
pub open spec fn kv<V>(m: Seq<(String, V)>) -> Seq<(Seq<char>, V)> {
    m.map_values(|p: (String, V)| (p.0@, p.1))
}

/// The fully viewed form of a string-keyed vector: keys and values both
/// viewed.
pub open spec fn kview<V: View>(m: Seq<(String, V)>) -> Seq<(Seq<char>, V::V)> {
    m.map_values(|p: (String, V)| (p.0@, p.1@))
}

/// Two viewed forms with the same keys agree on every key position.
pub proof fn lemma_index_same_keys<V, W>(
    a: Seq<(Seq<char>, V)>,
    b: Seq<(Seq<char>, W)>,
    k: Seq<char>,
)
    requires
        a.len() == b.len(),
        forall|i: int| 0 <= i < a.len() ==> (#[trigger] a[i]).0 == b[i].0,
    ensures
        spec_index_of(a, k) == spec_index_of(b, k),
    decreases a.len(),
{
    if a.len() == 0 {
    } else if a[0].0 == k {
    } else {
        assert(forall|i: int|
            0 <= i < a.len() - 1 ==> (#[trigger] a.drop_first()[i]).0 == b.drop_first()[i].0);
        lemma_index_same_keys(a.drop_first(), b.drop_first(), k);
    }
}

/// The position of the entry for `key`, if `m` has one.
pub fn find_key<V>(m: &Vec<(String, V)>, key: &str) -> (r: Option<usize>)
    ensures
        r matches Some(i) ==> spec_index_of(kv(m@), key@) == i as int,
        r is None ==> spec_index_of(kv(m@), key@) < 0,
{
    proof {
        lemma_index_of(kv(m@), key@);
    }
    let mut i: usize = 0;
    while i < m.len()
        invariant
            i <= m@.len(),
            forall|j: int| 0 <= j < i ==> kv(m@)[j].0 != key@,
        decreases m@.len() - i,
    {
        if str_eq(m[i].0.as_str(), key) {
            proof {
                lemma_index_found(kv(m@), key@, i as int);
            }
            return Some(i);
        }
        i += 1;
    }
    None
}

/// Binds `key` to `value`: replaces the existing entry in place, or
/// appends a new one.
pub fn upsert<V>(m: &mut Vec<(String, V)>, key: String, value: V)
    ensures
        kv(final(m)@) == spec_upsert(kv(old(m)@), key@, value),
{
    proof {
        lemma_index_of(kv(old(m)@), key@);
    }
    match find_key(m, key.as_str()) {
        Some(i) => {
            m[i] = (key, value);
            proof {
                assert(kv(final(m)@) =~= spec_upsert(kv(old(m)@), key@, value));
            }
        },
        None => {
            m.push((key, value));
            proof {
                assert(kv(final(m)@) =~= spec_upsert(kv(old(m)@), key@, value));
            }
        },
    }
}

/// An upsert never duplicates a key.
pub proof fn lemma_upsert_unique<K, V>(m: Seq<(K, V)>, k: K, v: V)
    requires
        spec_keys_unique(m),
    ensures
        spec_keys_unique(spec_upsert(m, k, v)),
{
    lemma_index_of(m, k);
}

} // verus!

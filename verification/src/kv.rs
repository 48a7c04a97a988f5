//! Lists of string keyed entries with map semantics: a key occurs at most
//! once, inserting an existing key replaces its value in place.

use vstd::prelude::*;
use crate::text::str_eq;

verus! {

pub open spec fn has_key<W>(s: Seq<(Seq<char>, W)>, k: Seq<char>) -> bool {
    exists|i: int| 0 <= i < s.len() && #[trigger] s[i].0 == k
}

pub open spec fn unique_keys<W>(s: Seq<(Seq<char>, W)>) -> bool {
    forall|i: int, j: int| 0 <= i < s.len() && 0 <= j < s.len() && i != j ==> #[trigger] s[i].0 != #[trigger] s[j].0
}

pub open spec fn key_index<W>(s: Seq<(Seq<char>, W)>, k: Seq<char>) -> int {
    choose|i: int| 0 <= i < s.len() && #[trigger] s[i].0 == k
}

/// The value stored under `k`.
pub open spec fn get<W>(s: Seq<(Seq<char>, W)>, k: Seq<char>) -> Option<W> {
    if has_key(s, k) {
        Some(s[key_index(s, k)].1)
    } else {
        None
    }
}

/// Stores `w` under `k`: in place when `k` is present, else at the end.
pub open spec fn upsert<W>(s: Seq<(Seq<char>, W)>, k: Seq<char>, w: W) -> Seq<(Seq<char>, W)> {
    if has_key(s, k) {
        s.update(key_index(s, k), (k, w))
    } else {
        s.push((k, w))
    }
}

/// Removes the entry of `k`, if any.
pub open spec fn remove_key<W>(s: Seq<(Seq<char>, W)>, k: Seq<char>) -> Seq<(Seq<char>, W)> {
    if has_key(s, k) {
        s.remove(key_index(s, k))
    } else {
        s
    }
}

pub proof fn lemma_key_index_unique<W>(s: Seq<(Seq<char>, W)>, k: Seq<char>, i: int)
    requires
        unique_keys(s),
        0 <= i < s.len(),
        s[i].0 == k,
    ensures
        has_key(s, k),
        key_index(s, k) == i,
{
    assert(has_key(s, k));
    let j = key_index(s, k);
    if j != i {
        assert(s[i].0 != s[j].0);
    }
}

/// The position of `k`.
pub fn kv_index<V: DeepView>(v: &Vec<(String, V)>, k: &str) -> (r: Option<usize>)
    requires
        unique_keys(v.deep_view()),
    ensures
        match r {
            Some(i) => i < v.len() && has_key(v.deep_view(), k@) && i == key_index(
                v.deep_view(),
                k@,
            ),
            None => !has_key(v.deep_view(), k@),
        },
{
    let mut i: usize = 0;
    while i < v.len()
        invariant
            i <= v.len(),
            unique_keys(v.deep_view()),
            forall|j: int| 0 <= j < i ==> #[trigger] v.deep_view()[j].0 != k@,
        decreases v.len() - i,
    {
        if str_eq(v[i].0.as_str(), k) {
            proof {
                lemma_key_index_unique(v.deep_view(), k@, i as int);
            }
            return Some(i);
        }
        i = i + 1;
    }
    None
}

/// Stores `w` under `k`.
pub fn kv_upsert<V: DeepView>(v: &mut Vec<(String, V)>, k: String, w: V)
    requires
        unique_keys(old(v).deep_view()),
    ensures
        final(v).deep_view() == upsert(old(v).deep_view(), k@, w.deep_view()),
        unique_keys(final(v).deep_view()),
{
    let ghost before = v.deep_view();
    let ghost kv = k@;
    let ghost wv = w.deep_view();
    match kv_index(v, k.as_str()) {
        Some(i) => {
            v.set(i, (k, w));
            assert(v.deep_view() =~= before.update(i as int, (kv, wv)));
        },
        None => {
            v.push((k, w));
            assert(v.deep_view() =~= before.push((kv, wv)));
        },
    }
}

/// Removes the entry of `k` and returns its value.
pub fn kv_remove<V: DeepView>(v: &mut Vec<(String, V)>, k: &str) -> (r: Option<V>)
    requires
        unique_keys(old(v).deep_view()),
    ensures
        final(v).deep_view() == remove_key(old(v).deep_view(), k@),
        unique_keys(final(v).deep_view()),
        match r {
            Some(w) => get(old(v).deep_view(), k@) == Some(w.deep_view()),
            None => get(old(v).deep_view(), k@) is None,
        },
{
    let ghost before = v.deep_view();
    match kv_index(v, k) {
        Some(i) => {
            let (_key, w) = v.remove(i);
            assert(v.deep_view() =~= before.remove(i as int));
            assert forall|a: int, b: int|
                0 <= a < v.deep_view().len() && 0 <= b < v.deep_view().len() && a != b implies #[trigger] v.deep_view()[a].0
                    != #[trigger] v.deep_view()[b].0 by {
                let a2 = if a < i { a } else { a + 1 };
                let b2 = if b < i { b } else { b + 1 };
                assert(before[a2].0 != before[b2].0);
            }
            Some(w)
        },
        None => None,
    }
}

} // verus!

verus! {

/// A read gives back what a write stored: after storing `w` under `k`, `k`
/// gives `w`, every other key gives what it gave before, and keys stay
/// unique.
pub proof fn lemma_upsert_get<W>(s: Seq<(Seq<char>, W)>, k: Seq<char>, w: W, other: Seq<char>)
    requires
        unique_keys(s),
    ensures
        unique_keys(upsert(s, k, w)),
        get(upsert(s, k, w), k) == Some(w),
        other != k ==> get(upsert(s, k, w), other) == get(s, other),
{
    let t = upsert(s, k, w);
    if has_key(s, k) {
        let i = key_index(s, k);
        assert forall|a: int, b: int| 0 <= a < t.len() && 0 <= b < t.len() && a != b implies #[trigger] t[a].0
            != #[trigger] t[b].0 by {
            assert(t[a].0 == s[a].0 && t[b].0 == s[b].0);
        }
        lemma_key_index_unique(t, k, i);
        if other != k && has_key(s, other) {
            let j = key_index(s, other);
            assert(t[j] == s[j]);
            lemma_key_index_unique(t, other, j);
        } else if other != k && has_key(t, other) {
            let j = key_index(t, other);
            assert(s[j].0 == t[j].0);
        }
    } else {
        let n = s.len() as int;
        assert forall|a: int, b: int| 0 <= a < t.len() && 0 <= b < t.len() && a != b implies #[trigger] t[a].0
            != #[trigger] t[b].0 by {
            if a < n && b < n {
                assert(t[a] == s[a] && t[b] == s[b]);
            } else if a == n {
                assert(t[b] == s[b]);
            } else {
                assert(t[a] == s[a]);
            }
        }
        assert(t[n].0 == k);
        lemma_key_index_unique(t, k, n);
        if other != k && has_key(s, other) {
            let j = key_index(s, other);
            assert(t[j] == s[j]);
            lemma_key_index_unique(t, other, j);
        } else if other != k && has_key(t, other) {
            let j = key_index(t, other);
            assert(j != n);
            assert(s[j].0 == t[j].0);
        }
    }
}

/// Removing a key: it gives nothing afterwards, every other key what it
/// gave before.
pub proof fn lemma_remove_get<W>(s: Seq<(Seq<char>, W)>, k: Seq<char>, other: Seq<char>)
    requires
        unique_keys(s),
    ensures
        get(remove_key(s, k), k) is None,
        other != k ==> get(remove_key(s, k), other) == get(s, other),
{
    let t = remove_key(s, k);
    if has_key(s, k) {
        let i = key_index(s, k);
        if has_key(t, k) {
            let j = key_index(t, k);
            let j2 = if j < i { j } else { j + 1 };
            assert(s[j2].0 == k);
            assert(j2 != i);
        }
        if other != k && has_key(s, other) {
            let j = key_index(s, other);
            assert(j != i);
            let j2 = if j < i { j } else { j - 1 };
            assert(t[j2] == s[j]);
            assert forall|a: int, b: int| 0 <= a < t.len() && 0 <= b < t.len() && a != b implies #[trigger] t[a].0
                != #[trigger] t[b].0 by {
                let a2 = if a < i { a } else { a + 1 };
                let b2 = if b < i { b } else { b + 1 };
                assert(t[a] == s[a2] && t[b] == s[b2]);
            }
            lemma_key_index_unique(t, other, j2);
        } else if other != k && has_key(t, other) {
            let j = key_index(t, other);
            let j2 = if j < i { j } else { j + 1 };
            assert(s[j2] == t[j]);
        }
    }
}

} // verus!

//! Text in code point order (the order of `str` and `String`), lists of
//! entries kept sorted by such keys (the contents of an ordered map), and
//! sorting by key.

use vstd::prelude::*;
use crate::kv::{get, has_key, key_index, lemma_key_index_unique, unique_keys};
use crate::text::{chars_of, str_eq};

verus! {

/// `a` comes before `b`: at the first position where they differ the
/// character of `a` is smaller, or `a` is a proper prefix of `b`.
pub open spec fn lex_lt(a: Seq<char>, b: Seq<char>) -> bool
    decreases a.len(),
{
    if a.len() == 0 {
        b.len() > 0
    } else if b.len() == 0 {
        false
    } else if a[0] != b[0] {
        (a[0] as int) < (b[0] as int)
    } else {
        lex_lt(a.drop_first(), b.drop_first())
    }
}

pub open spec fn lex_le(a: Seq<char>, b: Seq<char>) -> bool {
    a == b || lex_lt(a, b)
}

/// No text comes before itself.
pub proof fn lemma_lex_irreflexive(a: Seq<char>)
    ensures
        !lex_lt(a, a),
    decreases a.len(),
{
    if a.len() > 0 {
        lemma_lex_irreflexive(a.drop_first());
    }
}

/// The order is transitive.
pub proof fn lemma_lex_transitive(a: Seq<char>, b: Seq<char>, c: Seq<char>)
    requires
        lex_lt(a, b),
        lex_lt(b, c),
    ensures
        lex_lt(a, c),
    decreases a.len(),
{
    if a.len() > 0 && b.len() > 0 && c.len() > 0 && a[0] == b[0] && b[0] == c[0] {
        lemma_lex_transitive(a.drop_first(), b.drop_first(), c.drop_first());
    }
}

/// Of two different texts, one comes before the other.
pub proof fn lemma_lex_total(a: Seq<char>, b: Seq<char>)
    ensures
        a == b || lex_lt(a, b) || lex_lt(b, a),
    decreases a.len(),
{
    if a.len() > 0 && b.len() > 0 && a[0] == b[0] {
        lemma_lex_total(a.drop_first(), b.drop_first());
        if a.drop_first() == b.drop_first() {
            assert(a =~= seq![a[0]] + a.drop_first());
            assert(b =~= seq![b[0]] + b.drop_first());
        }
    } else if a.len() == 0 && b.len() == 0 {
        assert(a =~= b);
    } else if a.len() > 0 && b.len() > 0 {
        assert((a[0] as int) != (b[0] as int));
    }
}

/// Two texts are never each before the other.
pub proof fn lemma_lex_asymmetric(a: Seq<char>, b: Seq<char>)
    requires
        lex_lt(a, b),
    ensures
        !lex_lt(b, a),
{
    if lex_lt(b, a) {
        lemma_lex_transitive(a, b, a);
        lemma_lex_irreflexive(a);
    }
}

proof fn lemma_lex_le_lt(a: Seq<char>, b: Seq<char>, c: Seq<char>)
    requires
        lex_le(a, b),
        lex_lt(b, c),
    ensures
        lex_lt(a, c),
{
    if a != b {
        lemma_lex_transitive(a, b, c);
    }
}

proof fn lemma_lex_lt_le(a: Seq<char>, b: Seq<char>, c: Seq<char>)
    requires
        lex_lt(a, b),
        lex_le(b, c),
    ensures
        lex_lt(a, c),
{
    if b != c {
        lemma_lex_transitive(a, b, c);
    }
}

/// Whether `a` comes before `b`.
pub fn str_lt(a: &str, b: &str) -> (r: bool)
    ensures
        r == lex_lt(a@, b@),
{
    let x = chars_of(a);
    let y = chars_of(b);
    let mut i: usize = 0;
    assert(a@.skip(0) =~= a@);
    assert(b@.skip(0) =~= b@);
    while i < x.len() && i < y.len() && x[i] == y[i]
        invariant
            i <= x.len(),
            i <= y.len(),
            x@ == a@,
            y@ == b@,
            lex_lt(a@, b@) == lex_lt(a@.skip(i as int), b@.skip(i as int)),
        decreases x.len() - i,
    {
        assert(a@.skip(i as int).drop_first() =~= a@.skip(i + 1));
        assert(b@.skip(i as int).drop_first() =~= b@.skip(i + 1));
        i = i + 1;
    }
    if i == x.len() {
        i < y.len()
    } else if i == y.len() {
        false
    } else {
        x[i] < y[i]
    }
}

/// The keys strictly increase along the list.
pub open spec fn keys_sorted<W>(s: Seq<(Seq<char>, W)>) -> bool {
    forall|i: int, j: int| 0 <= i < j < s.len() ==> lex_lt(#[trigger] s[i].0, #[trigger] s[j].0)
}

/// The keys never decrease along the list.
pub open spec fn keys_ordered<W>(s: Seq<(Seq<char>, W)>) -> bool {
    forall|i: int, j: int| 0 <= i < j < s.len() ==> lex_le(#[trigger] s[i].0, #[trigger] s[j].0)
}

pub proof fn lemma_sorted_unique<W>(s: Seq<(Seq<char>, W)>)
    requires
        keys_sorted(s),
    ensures
        unique_keys(s),
{
    assert forall|i: int, j: int| 0 <= i < s.len() && 0 <= j < s.len() && i != j implies #[trigger] s[i].0
        != #[trigger] s[j].0 by {
        if i < j {
            lemma_lex_irreflexive(s[i].0);
        } else {
            lemma_lex_irreflexive(s[j].0);
        }
    }
}

/// After `w` is stored under `k`: `k` gives `w`, every other key what it
/// gave before.
pub open spec fn stored<W>(before: Seq<(Seq<char>, W)>, after: Seq<(Seq<char>, W)>, k: Seq<char>, w: W) -> bool {
    forall|key: Seq<char>| #[trigger] get(after, key) == if key == k {
        Some(w)
    } else {
        get(before, key)
    }
}

/// The list holds exactly the entries of `m`.
pub open spec fn represents<W>(s: Seq<(Seq<char>, W)>, m: Map<Seq<char>, W>) -> bool {
    forall|key: Seq<char>| #[trigger] get(s, key) == if m.dom().contains(key) {
        Some(m[key])
    } else {
        None
    }
}

/// Storing into a list that holds `m` gives a list that holds `m` with
/// the new entry.
pub proof fn lemma_represents_stored<W>(
    before: Seq<(Seq<char>, W)>,
    after: Seq<(Seq<char>, W)>,
    m: Map<Seq<char>, W>,
    k: Seq<char>,
    w: W,
)
    requires
        represents(before, m),
        stored(before, after, k, w),
    ensures
        represents(after, m.insert(k, w)),
{
    assert forall|key: Seq<char>| #[trigger] get(after, key) == if m.insert(k, w).dom().contains(key) {
        Some(m.insert(k, w)[key])
    } else {
        None
    } by {
        assert(get(before, key) == if m.dom().contains(key) {
            Some(m[key])
        } else {
            None
        });
    }
}

pub proof fn lemma_get_insert<W>(s: Seq<(Seq<char>, W)>, p: int, k: Seq<char>, w: W)
    requires
        0 <= p <= s.len(),
        unique_keys(s),
        !has_key(s, k),
    ensures
        unique_keys(s.insert(p, (k, w))),
        stored(s, s.insert(p, (k, w)), k, w),
{
    let t = s.insert(p, (k, w));
    assert forall|a: int, b: int| 0 <= a < t.len() && 0 <= b < t.len() && a != b implies #[trigger] t[a].0
        != #[trigger] t[b].0 by {
        if a != p && b != p {
            let a2 = if a < p { a } else { a - 1 };
            let b2 = if b < p { b } else { b - 1 };
            assert(t[a] == s[a2] && t[b] == s[b2]);
        } else if a == p {
            let b2 = if b < p { b } else { b - 1 };
            assert(t[b] == s[b2]);
        } else {
            let a2 = if a < p { a } else { a - 1 };
            assert(t[a] == s[a2]);
        }
    }
    assert forall|key: Seq<char>| #[trigger] get(t, key) == if key == k {
        Some(w)
    } else {
        get(s, key)
    } by {
        if key == k {
            assert(t[p].0 == k);
            lemma_key_index_unique(t, k, p);
        } else if has_key(s, key) {
            let i = key_index(s, key);
            let i2 = if i < p { i } else { i + 1 };
            assert(t[i2] == s[i]);
            lemma_key_index_unique(t, key, i2);
        } else {
            if has_key(t, key) {
                let j = key_index(t, key);
                assert(j != p);
                let j2 = if j < p { j } else { j - 1 };
                assert(s[j2] == t[j]);
            }
        }
    }
}

pub proof fn lemma_get_update<W>(s: Seq<(Seq<char>, W)>, p: int, k: Seq<char>, w: W)
    requires
        0 <= p < s.len(),
        unique_keys(s),
        s[p].0 == k,
    ensures
        unique_keys(s.update(p, (k, w))),
        stored(s, s.update(p, (k, w)), k, w),
{
    let t = s.update(p, (k, w));
    assert forall|a: int, b: int| 0 <= a < t.len() && 0 <= b < t.len() && a != b implies #[trigger] t[a].0
        != #[trigger] t[b].0 by {
        assert(t[a].0 == s[a].0 && t[b].0 == s[b].0);
    }
    assert forall|key: Seq<char>| #[trigger] get(t, key) == if key == k {
        Some(w)
    } else {
        get(s, key)
    } by {
        if key == k {
            lemma_key_index_unique(t, k, p);
        } else if has_key(s, key) {
            let i = key_index(s, key);
            assert(t[i] == s[i]);
            lemma_key_index_unique(t, key, i);
        } else {
            if has_key(t, key) {
                let j = key_index(t, key);
                assert(s[j].0 == t[j].0);
            }
        }
    }
}

/// Stores `w` under `k` in a list sorted by key, as an ordered map does:
/// the entry of `k` is replaced, or a new one goes where its key belongs.
pub fn sorted_upsert<V: DeepView>(v: &mut Vec<(String, V)>, k: String, w: V)
    requires
        keys_sorted(old(v).deep_view()),
    ensures
        keys_sorted(final(v).deep_view()),
        stored(old(v).deep_view(), final(v).deep_view(), k@, w.deep_view()),
        final(v).len() == old(v).len() + if has_key(old(v).deep_view(), k@) {
            0int
        } else {
            1int
        },
{
    let ghost s = v.deep_view();
    let ghost kv = k@;
    let ghost wv = w.deep_view();
    proof {
        lemma_sorted_unique(s);
    }
    let mut p: usize = 0;
    while p < v.len() && str_lt(v[p].0.as_str(), k.as_str())
        invariant
            p <= v.len(),
            s == v.deep_view(),
            kv == k@,
            forall|j: int| 0 <= j < p ==> lex_lt(#[trigger] s[j].0, kv),
        decreases v.len() - p,
    {
        p = p + 1;
    }
    if p < v.len() && str_eq(v[p].0.as_str(), k.as_str()) {
        proof {
            lemma_get_update(s, p as int, kv, wv);
            lemma_key_index_unique(s, kv, p as int);
        }
        v.set(p, (k, w));
        assert(v.deep_view() =~= s.update(p as int, (kv, wv)));
    } else {
        let ghost t = s.insert(p as int, (kv, wv));
        proof {
            // every key from `p` on comes after `k`
            assert forall|j: int| p <= j < s.len() implies lex_lt(kv, #[trigger] s[j].0) by {
                lemma_lex_total(s[p as int].0, kv);
                if j > p {
                    lemma_lex_transitive(kv, s[p as int].0, s[j].0);
                }
            }
            if has_key(s, kv) {
                let i = key_index(s, kv);
                if i < p {
                    lemma_lex_irreflexive(kv);
                } else {
                    lemma_lex_irreflexive(kv);
                }
            }
            lemma_get_insert(s, p as int, kv, wv);
            assert forall|i: int, j: int| 0 <= i < j < t.len() implies lex_lt(#[trigger] t[i].0, #[trigger] t[j].0) by {
                if j < p {
                    assert(t[i] == s[i] && t[j] == s[j]);
                } else if j == p {
                    assert(t[i] == s[i]);
                } else if i == p {
                    assert(t[j] == s[j - 1]);
                } else if i < p {
                    assert(t[i] == s[i] && t[j] == s[j - 1]);
                    lemma_lex_transitive(s[i].0, kv, s[j - 1].0);
                } else {
                    assert(t[i] == s[i - 1] && t[j] == s[j - 1]);
                }
            }
        }
        v.insert(p, (k, w));
        assert(v.deep_view() =~= t);
    }
}

/// The entries sorted by key, as a stable sort by key orders them.
pub fn sort_by_key<V: DeepView>(items: Vec<(String, V)>) -> (r: Vec<(String, V)>)
    ensures
        keys_ordered(r.deep_view()),
        r.deep_view().to_multiset() == items.deep_view().to_multiset(),
{
    broadcast use vstd::seq_lib::group_to_multiset_ensures;

    let ghost orig = items.deep_view();
    let mut rest = items;
    let mut r: Vec<(String, V)> = Vec::new();
    assert(r.deep_view() =~= Seq::<(Seq<char>, V::V)>::empty());
    while rest.len() > 0
        invariant
            keys_ordered(r.deep_view()),
            r.deep_view().to_multiset().add(rest.deep_view().to_multiset()) == orig.to_multiset(),
        decreases rest.len(),
    {
        let ghost rs = rest.deep_view();
        let ghost s = r.deep_view();
        let x = rest.remove(0);
        assert(rest.deep_view() =~= rs.remove(0));
        proof {
            vstd::seq_lib::to_multiset_remove(rs, 0);
        }
        let ghost xv = x.deep_view();
        let mut p: usize = 0;
        while p < r.len() && !str_lt(x.0.as_str(), r[p].0.as_str())
            invariant
                p <= r.len(),
                s == r.deep_view(),
                xv == x.deep_view(),
                forall|j: int| 0 <= j < p ==> lex_le(#[trigger] s[j].0, xv.0),
            decreases r.len() - p,
        {
            proof {
                lemma_lex_total(s[p as int].0, xv.0);
            }
            p = p + 1;
        }
        let ghost t = s.insert(p as int, xv);
        proof {
            assert forall|j: int| p <= j < s.len() implies lex_lt(xv.0, #[trigger] s[j].0) by {
                if j > p {
                    lemma_lex_lt_le(xv.0, s[p as int].0, s[j].0);
                }
            }
            assert forall|i: int, j: int| 0 <= i < j < t.len() implies lex_le(#[trigger] t[i].0, #[trigger] t[j].0) by {
                if j < p {
                    assert(t[i] == s[i] && t[j] == s[j]);
                } else if j == p {
                    assert(t[i] == s[i]);
                } else if i == p {
                    assert(t[j] == s[j - 1]);
                } else if i < p {
                    assert(t[i] == s[i] && t[j] == s[j - 1]);
                    lemma_lex_le_lt(s[i].0, xv.0, s[j - 1].0);
                } else {
                    assert(t[i] == s[i - 1] && t[j] == s[j - 1]);
                }
            }
            vstd::seq_lib::to_multiset_insert(s, p as int, xv);
            assert(rs[0] == xv);
            assert(rs.contains(xv));
            vstd::seq_lib::to_multiset_contains(rs, xv);
            broadcast use vstd::multiset::group_multiset_axioms;
            assert(t.to_multiset().add(rs.remove(0).to_multiset()) =~= orig.to_multiset());
        }
        r.insert(p, x);
        assert(r.deep_view() =~= t);
    }
    assert(rest.deep_view() =~= Seq::<(Seq<char>, V::V)>::empty());
    assert(r.deep_view().to_multiset() =~= orig.to_multiset());
    r
}

} // verus!

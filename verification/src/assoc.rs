//! Maps keyed by strings and kept in ascending key order, the order in
//! which a `BTreeMap<String, _>` visits its entries.  A map is modelled as
//! the sequence of its `(key, value)` pairs sorted by key.

use vstd::prelude::*;
use crate::text::str_chars;

verus! {

/// Lexicographic order of character sequences (code point by code point),
/// which is the byte order of their UTF-8 encodings.
pub open spec fn chars_lt(a: Seq<char>, b: Seq<char>) -> bool
    decreases a.len(),
{
    if a.len() == 0 {
        b.len() > 0
    } else if b.len() == 0 {
        false
    } else if a[0] < b[0] {
        true
    } else if a[0] > b[0] {
        false
    } else {
        chars_lt(a.drop_first(), b.drop_first())
    }
}

pub proof fn lemma_chars_lt_irreflexive(a: Seq<char>)
    ensures
        !chars_lt(a, a),
    decreases a.len(),
{
    if a.len() > 0 {
        lemma_chars_lt_irreflexive(a.drop_first());
    }
}

pub proof fn lemma_chars_lt_asymmetric(a: Seq<char>, b: Seq<char>)
    ensures
        chars_lt(a, b) ==> !chars_lt(b, a),
    decreases a.len(),
{
    if a.len() > 0 && b.len() > 0 {
        lemma_chars_lt_asymmetric(a.drop_first(), b.drop_first());
    }
}

pub proof fn lemma_chars_lt_transitive(a: Seq<char>, b: Seq<char>, c: Seq<char>)
    requires
        chars_lt(a, b),
        chars_lt(b, c),
    ensures
        chars_lt(a, c),
    decreases a.len(),
{
    if a.len() > 0 && b.len() > 0 && c.len() > 0 {
        if a[0] == b[0] && b[0] == c[0] {
            lemma_chars_lt_transitive(a.drop_first(), b.drop_first(), c.drop_first());
        }
    }
}

pub proof fn lemma_chars_lt_total(a: Seq<char>, b: Seq<char>)
    ensures
        a == b || chars_lt(a, b) || chars_lt(b, a),
    decreases a.len(),
{
    if a.len() > 0 && b.len() > 0 {
        lemma_chars_lt_total(a.drop_first(), b.drop_first());
        if a[0] == b[0] && a.drop_first() == b.drop_first() {
            assert(a[0] == b[0]);
            assert(a =~= seq![a[0]] + a.drop_first());
            assert(b =~= seq![b[0]] + b.drop_first());
        }
    } else if a.len() == 0 && b.len() == 0 {
        assert(a =~= b);
    }
}

/// Three-way comparison of character sequences: -1, 0 or 1.
pub fn compare_chars(a: &Vec<char>, b: &Vec<char>) -> (r: i8)
    ensures
        r == 0 <==> a@ == b@,
        r < 0 <==> chars_lt(a@, b@),
        r > 0 <==> chars_lt(b@, a@),
{
    let n = a.len();
    let m = b.len();
    let mut i: usize = 0;
    assert(a@.skip(0) =~= a@);
    assert(b@.skip(0) =~= b@);
    while i < n && i < m
        invariant
            i <= n == a@.len(),
            i <= m == b@.len(),
            a@.take(i as int) == b@.take(i as int),
            chars_lt(a@, b@) == chars_lt(a@.skip(i as int), b@.skip(i as int)),
            chars_lt(b@, a@) == chars_lt(b@.skip(i as int), a@.skip(i as int)),
        decreases n - i,
    {
        let x = a[i];
        let y = b[i];
        assert(a@.skip(i as int)[0] == a@[i as int]);
        assert(b@.skip(i as int)[0] == b@[i as int]);
        if x < y {
            proof {
                lemma_chars_lt_asymmetric(a@, b@);
            }
            assert(a@[i as int] != b@[i as int]);
            assert(a@ != b@);
            return -1;
        }
        if x > y {
            proof {
                lemma_chars_lt_asymmetric(a@, b@);
            }
            assert(a@[i as int] != b@[i as int]);
            assert(a@ != b@);
            return 1;
        }
        assert(a@[i as int] == b@[i as int]);
        assert(a@.skip(i as int).drop_first() =~= a@.skip(i + 1));
        assert(b@.skip(i as int).drop_first() =~= b@.skip(i + 1));
        assert(a@.take(i + 1) =~= a@.take(i as int).push(a@[i as int]));
        assert(b@.take(i + 1) =~= b@.take(i as int).push(b@[i as int]));
        i = i + 1;
    }
    if n == m {
        assert(a@ =~= a@.take(i as int));
        assert(b@ =~= b@.take(i as int));
        proof {
            lemma_chars_lt_irreflexive(a@);
        }
        0
    } else if n < m {
        assert(a@ =~= a@.take(i as int));
        assert(a@ != b@);
        assert(a@.skip(i as int).len() == 0);
        proof {
            lemma_chars_lt_asymmetric(a@, b@);
        }
        -1
    } else {
        assert(b@ =~= b@.take(i as int));
        assert(a@ != b@);
        assert(b@.skip(i as int).len() == 0);
        proof {
            lemma_chars_lt_asymmetric(a@, b@);
        }
        1
    }
}

// ---------------------------------------------------------------------
// Sorted association sequences
// ---------------------------------------------------------------------
/// Keys strictly ascending.
pub open spec fn sorted_keys<W>(s: Seq<(Seq<char>, W)>) -> bool {
    forall|i: int, j: int| 0 <= i < j < s.len() ==> chars_lt(#[trigger] s[i].0, #[trigger] s[j].0)
}

/// The value stored under `k`.
pub open spec fn assoc_get<W>(s: Seq<(Seq<char>, W)>, k: Seq<char>) -> Option<W>
    decreases s.len(),
{
    if s.len() == 0 {
        None
    } else if s[0].0 == k {
        Some(s[0].1)
    } else {
        assoc_get(s.drop_first(), k)
    }
}

/// `BTreeMap::insert`: `k` now maps to `v`, at its place in key order.
pub open spec fn assoc_insert<W>(s: Seq<(Seq<char>, W)>, k: Seq<char>, v: W) -> Seq<
    (Seq<char>, W),
>
    decreases s.len(),
{
    if s.len() == 0 {
        seq![(k, v)]
    } else if s[0].0 == k {
        seq![(k, v)] + s.drop_first()
    } else if chars_lt(k, s[0].0) {
        seq![(k, v)] + s
    } else {
        seq![s[0]] + assoc_insert(s.drop_first(), k, v)
    }
}

/// `BTreeMap::remove`: the entry for `k` is gone.
pub open spec fn assoc_remove<W>(s: Seq<(Seq<char>, W)>, k: Seq<char>) -> Seq<(Seq<char>, W)>
    decreases s.len(),
{
    if s.len() == 0 {
        s
    } else if s[0].0 == k {
        s.drop_first()
    } else {
        seq![s[0]] + assoc_remove(s.drop_first(), k)
    }
}

/// `entry(k).or_insert(v)`: inserts only when `k` is absent.
pub open spec fn assoc_insert_if_absent<W>(s: Seq<(Seq<char>, W)>, k: Seq<char>, v: W) -> Seq<
    (Seq<char>, W),
> {
    if assoc_get(s, k) is Some {
        s
    } else {
        assoc_insert(s, k, v)
    }
}

pub proof fn lemma_get_at<W>(s: Seq<(Seq<char>, W)>, k: Seq<char>, p: int)
    requires
        0 <= p < s.len(),
        s[p].0 == k,
        forall|j: int| 0 <= j < p ==> s[j].0 != k,
    ensures
        assoc_get(s, k) == Some(s[p].1),
    decreases p,
{
    if p > 0 {
        assert(s[0].0 != k);
        let t = s.drop_first();
        assert forall|j: int| 0 <= j < p - 1 implies t[j].0 != k by {
            assert(t[j] == s[j + 1]);
        }
        lemma_get_at(t, k, p - 1);
    }
}

pub proof fn lemma_get_absent<W>(s: Seq<(Seq<char>, W)>, k: Seq<char>)
    requires
        forall|j: int| 0 <= j < s.len() ==> s[j].0 != k,
    ensures
        assoc_get(s, k) is None,
    decreases s.len(),
{
    if s.len() > 0 {
        assert(s[0].0 != k);
        let t = s.drop_first();
        assert forall|j: int| 0 <= j < t.len() implies t[j].0 != k by {
            assert(t[j] == s[j + 1]);
        }
        lemma_get_absent(t, k);
    }
}

/// In a sorted sequence, the key at `p` is the only place `k` can be found.
pub proof fn lemma_sorted_get<W>(s: Seq<(Seq<char>, W)>, k: Seq<char>)
    requires
        sorted_keys(s),
    ensures
        forall|p: int| 0 <= p < s.len() && s[p].0 == k ==> assoc_get(s, k) == Some(s[p].1),
        (forall|p: int| 0 <= p < s.len() ==> s[p].0 != k) ==> assoc_get(s, k) is None,
{
    assert forall|p: int| 0 <= p < s.len() && s[p].0 == k implies assoc_get(s, k) == Some(
        s[p].1,
    ) by {
        assert forall|j: int| 0 <= j < p implies s[j].0 != k by {
            assert(chars_lt(s[j].0, s[p].0));
            lemma_chars_lt_irreflexive(k);
        }
        lemma_get_at(s, k, p);
    }
    if forall|p: int| 0 <= p < s.len() ==> s[p].0 != k {
        lemma_get_absent(s, k);
    }
}

pub proof fn lemma_insert_at<W>(s: Seq<(Seq<char>, W)>, k: Seq<char>, v: W, p: int, q: int)
    requires
        0 <= p <= s.len(),
        forall|j: int| 0 <= j < p ==> chars_lt(#[trigger] s[j].0, k),
        (q == p + 1 && p < s.len() && s[p].0 == k) || (q == p && (p == s.len() || chars_lt(
            k,
            s[p].0,
        ))),
    ensures
        assoc_insert(s, k, v) == s.take(p) + seq![(k, v)] + s.skip(q),
    decreases p,
{
    if p == 0 {
        lemma_chars_lt_irreflexive(k);
        if s.len() == 0 {
            assert(s.take(0) + seq![(k, v)] + s.skip(q) =~= seq![(k, v)]);
        } else if s[0].0 == k {
            assert(s.take(0) + seq![(k, v)] + s.skip(q) =~= seq![(k, v)] + s.drop_first());
        } else {
            assert(s.take(0) + seq![(k, v)] + s.skip(q) =~= seq![(k, v)] + s);
        }
    } else {
        assert(chars_lt(s[0].0, k));
        lemma_chars_lt_irreflexive(k);
        lemma_chars_lt_asymmetric(s[0].0, k);
        let t = s.drop_first();
        assert forall|j: int| 0 <= j < p - 1 implies chars_lt(#[trigger] t[j].0, k) by {
            assert(t[j] == s[j + 1]);
        }
        lemma_insert_at(t, k, v, p - 1, q - 1);
        assert(s.take(p) + seq![(k, v)] + s.skip(q) =~= seq![s[0]] + (t.take(p - 1) + seq![(k, v)]
            + t.skip(q - 1)));
    }
}

pub proof fn lemma_remove_at<W>(s: Seq<(Seq<char>, W)>, k: Seq<char>, p: int)
    requires
        0 <= p < s.len(),
        s[p].0 == k,
        forall|j: int| 0 <= j < p ==> s[j].0 != k,
    ensures
        assoc_remove(s, k) == s.take(p) + s.skip(p + 1),
    decreases p,
{
    if p == 0 {
        assert(s.take(0) + s.skip(1) =~= s.drop_first());
    } else {
        let t = s.drop_first();
        assert forall|j: int| 0 <= j < p - 1 implies t[j].0 != k by {
            assert(t[j] == s[j + 1]);
        }
        lemma_remove_at(t, k, p - 1);
        assert(s.take(p) + s.skip(p + 1) =~= seq![s[0]] + (t.take(p - 1) + t.skip(p)));
    }
}

pub proof fn lemma_remove_absent<W>(s: Seq<(Seq<char>, W)>, k: Seq<char>)
    requires
        forall|j: int| 0 <= j < s.len() ==> s[j].0 != k,
    ensures
        assoc_remove(s, k) == s,
    decreases s.len(),
{
    if s.len() > 0 {
        let t = s.drop_first();
        assert forall|j: int| 0 <= j < t.len() implies t[j].0 != k by {
            assert(t[j] == s[j + 1]);
        }
        lemma_remove_absent(t, k);
        assert(seq![s[0]] + t =~= s);
    }
}

/// Inserting into a sorted sequence keeps it sorted.
pub proof fn lemma_insert_sorted<W>(s: Seq<(Seq<char>, W)>, k: Seq<char>, v: W)
    requires
        sorted_keys(s),
    ensures
        sorted_keys(assoc_insert(s, k, v)),
    decreases s.len(),
{
    if s.len() == 0 {
        assert(seq![(k, v)].drop_first() =~= Seq::<(Seq<char>, W)>::empty());
    } else {
        let t = s.drop_first();
        assert(sorted_keys(t)) by {
            assert forall|i: int, j: int| 0 <= i < j < t.len() implies chars_lt(
                #[trigger] t[i].0,
                #[trigger] t[j].0,
            ) by {
                assert(t[i] == s[i + 1] && t[j] == s[j + 1]);
            }
        }
        if s[0].0 == k {
            let r = seq![(k, v)] + t;
            assert forall|i: int, j: int| 0 <= i < j < r.len() implies chars_lt(
                #[trigger] r[i].0,
                #[trigger] r[j].0,
            ) by {
                assert(chars_lt(s[i].0, s[j].0));
            }
            assert forall|k2: Seq<char>| k2 != k implies assoc_get(r, k2) == assoc_get(
                s,
                k2,
            ) by {
                assert(r.drop_first() =~= t);
            }
        } else if chars_lt(k, s[0].0) {
            let r = seq![(k, v)] + s;
            assert forall|i: int, j: int| 0 <= i < j < r.len() implies chars_lt(
                #[trigger] r[i].0,
                #[trigger] r[j].0,
            ) by {
                if i == 0 {
                    if j > 1 {
                        assert(chars_lt(s[0].0, s[j - 1].0));
                        lemma_chars_lt_transitive(k, s[0].0, s[j - 1].0);
                    }
                } else {
                    assert(chars_lt(s[i - 1].0, s[j - 1].0));
                }
            }
            assert forall|k2: Seq<char>| k2 != k implies assoc_get(r, k2) == assoc_get(
                s,
                k2,
            ) by {
                assert(r.drop_first() =~= s);
            }
        } else {
            lemma_chars_lt_total(k, s[0].0);
            lemma_insert_sorted(t, k, v);
            let rest = assoc_insert(t, k, v);
            let r = seq![s[0]] + rest;
            // every key of `rest` is a key of `t` or `k`, all above s[0].
            assert forall|j: int| 0 <= j < rest.len() implies chars_lt(
                s[0].0,
                #[trigger] rest[j].0,
            ) by {
                lemma_insert_keys(t, k, v, j);
                if rest[j].0 != k {
                    let m = choose|m: int| 0 <= m < t.len() && t[m].0 == rest[j].0;
                    assert(t[m] == s[m + 1]);
                }
            }
            assert forall|i: int, j: int| 0 <= i < j < r.len() implies chars_lt(
                #[trigger] r[i].0,
                #[trigger] r[j].0,
            ) by {
                if i == 0 {
                    assert(r[j] == rest[j - 1]);
                } else {
                    assert(r[i] == rest[i - 1] && r[j] == rest[j - 1]);
                }
            }
            assert(r.drop_first() =~= rest);
            lemma_chars_lt_irreflexive(k);

        }
    }
}

/// After an insert, `k` maps to `v` and every other key is unchanged.
pub proof fn lemma_insert_get<W>(s: Seq<(Seq<char>, W)>, k: Seq<char>, v: W, k2: Seq<char>)
    ensures
        assoc_get(assoc_insert(s, k, v), k2) == if k2 == k {
            Some(v)
        } else {
            assoc_get(s, k2)
        },
    decreases s.len(),
{
    let r = assoc_insert(s, k, v);
    let goal = if k2 == k {
        Some(v)
    } else {
        assoc_get(s, k2)
    };
    if s.len() == 0 {
        assert(r == seq![(k, v)]);
        assert(r[0] == (k, v));
        assert(r.drop_first() =~= Seq::<(Seq<char>, W)>::empty());
        assert(assoc_get(r.drop_first(), k2) is None);
        assert(assoc_get(r, k2) == goal);
    } else if s[0].0 == k {
        assert(r == seq![(k, v)] + s.drop_first());
        assert(r[0] == (k, v));
        assert(r.drop_first() =~= s.drop_first());
        assert(assoc_get(r, k2) == goal);
    } else if chars_lt(k, s[0].0) {
        assert(r == seq![(k, v)] + s);
        assert(r[0] == (k, v));
        assert(r.drop_first() =~= s);
        assert(assoc_get(r, k2) == goal);
    } else {
        lemma_insert_get(s.drop_first(), k, v, k2);
        assert(r == seq![s[0]] + assoc_insert(s.drop_first(), k, v));
        assert(r[0] == s[0]);
        assert(r.drop_first() =~= assoc_insert(s.drop_first(), k, v));
        assert(assoc_get(r, k2) == goal);
    }
}

/// Every key after an insert is `k` or an earlier key.
pub proof fn lemma_insert_keys<W>(s: Seq<(Seq<char>, W)>, k: Seq<char>, v: W, j: int)
    requires
        0 <= j < assoc_insert(s, k, v).len(),
    ensures
        assoc_insert(s, k, v)[j].0 == k || exists|m: int|
            0 <= m < s.len() && s[m].0 == #[trigger] assoc_insert(s, k, v)[j].0,
    decreases s.len(),
{
    let r = assoc_insert(s, k, v);
    if s.len() == 0 {
    } else if s[0].0 == k {
        if j > 0 {
            assert(r[j] == s[j]);
        }
    } else if chars_lt(k, s[0].0) {
        if j > 0 {
            assert(r[j] == s[j - 1]);
        }
    } else {
        if j == 0 {
            assert(r[0] == s[0]);
        } else {
            let t = s.drop_first();
            lemma_insert_keys(t, k, v, j - 1);
            assert(r[j] == assoc_insert(t, k, v)[j - 1]);
            if r[j].0 != k {
                let m = choose|m: int| 0 <= m < t.len() && t[m].0 == assoc_insert(t, k, v)[j - 1].0;
                assert(s[m + 1] == t[m]);
            }
        }
    }
}

/// Every entry after an insert is the new one or an earlier entry.
pub proof fn lemma_insert_entries<W>(s: Seq<(Seq<char>, W)>, k: Seq<char>, v: W, j: int)
    requires
        0 <= j < assoc_insert(s, k, v).len(),
    ensures
        assoc_insert(s, k, v)[j] == (k, v) || exists|m: int|
            0 <= m < s.len() && s[m] == #[trigger] assoc_insert(s, k, v)[j],
    decreases s.len(),
{
    let r = assoc_insert(s, k, v);
    if s.len() == 0 {
    } else if s[0].0 == k {
        if j > 0 {
            assert(r[j] == s[j]);
        }
    } else if chars_lt(k, s[0].0) {
        if j > 0 {
            assert(r[j] == s[j - 1]);
        }
    } else {
        if j == 0 {
            assert(r[0] == s[0]);
        } else {
            let t = s.drop_first();
            lemma_insert_entries(t, k, v, j - 1);
            assert(r[j] == assoc_insert(t, k, v)[j - 1]);
            if r[j] != (k, v) {
                let m = choose|m: int| 0 <= m < t.len() && t[m] == assoc_insert(t, k, v)[j - 1];
                assert(s[m + 1] == t[m]);
            }
        }
    }
}

/// A value found by key is the value of some entry with that key.
pub proof fn lemma_get_entry<W>(s: Seq<(Seq<char>, W)>, k: Seq<char>)
    requires
        assoc_get(s, k) is Some,
    ensures
        exists|m: int| 0 <= m < s.len() && #[trigger] s[m] == (k, assoc_get(s, k)->0),
    decreases s.len(),
{
    if s[0].0 != k {
        let t = s.drop_first();
        lemma_get_entry(t, k);
        let m = choose|m: int| 0 <= m < t.len() && #[trigger] t[m] == (k, assoc_get(t, k)->0);
        assert(s[m + 1] == t[m]);
    } else {
        assert(s[0] == (k, assoc_get(s, k)->0));
    }
}

/// Removing a key and inserting it again is the same as inserting it.
pub proof fn lemma_insert_after_remove<W>(s: Seq<(Seq<char>, W)>, k: Seq<char>, v: W)
    requires
        sorted_keys(s),
    ensures
        assoc_insert(assoc_remove(s, k), k, v) == assoc_insert(s, k, v),
    decreases s.len(),
{
    if s.len() > 0 {
        let t = s.drop_first();
        assert(sorted_keys(t)) by {
            assert forall|i: int, j: int| 0 <= i < j < t.len() implies chars_lt(
                #[trigger] t[i].0,
                #[trigger] t[j].0,
            ) by {
                assert(t[i] == s[i + 1] && t[j] == s[j + 1]);
            }
        }
        lemma_chars_lt_irreflexive(k);
        if s[0].0 == k {
            if t.len() > 0 {
                assert(chars_lt(s[0].0, s[1].0));
                assert(t[0] == s[1]);
                assert(t[0].0 != k);
            }
        } else if chars_lt(k, s[0].0) {
            assert forall|j: int| 0 <= j < s.len() implies s[j].0 != k by {
                if j > 0 {
                    assert(chars_lt(s[0].0, s[j].0));
                    lemma_chars_lt_transitive(k, s[0].0, s[j].0);
                }
            }
            lemma_remove_absent(s, k);
        } else {
            lemma_chars_lt_total(k, s[0].0);
            lemma_chars_lt_asymmetric(k, s[0].0);
            lemma_insert_after_remove(t, k, v);
            let r = assoc_remove(s, k);
            assert(r == seq![s[0]] + assoc_remove(t, k));
            assert(r[0] == s[0]);
            assert(r.drop_first() =~= assoc_remove(t, k));
        }
    }
}

// ---------------------------------------------------------------------
// The executable map
// ---------------------------------------------------------------------
/// A map from strings to values, iterated in ascending key order.
pub struct StrMap<V: View> {
    entries: Vec<(String, V)>,
}

/// The `(key, value)` pairs of a vector of entries, by view.
pub open spec fn entry_views<V: View>(e: Seq<(String, V)>) -> Seq<(Seq<char>, V::V)> {
    e.map_values(|x: (String, V)| (x.0@, x.1@))
}

impl<V: View> View for StrMap<V> {
    type V = Seq<(Seq<char>, V::V)>;

    closed spec fn view(&self) -> Seq<(Seq<char>, V::V)> {
        entry_views(self.entries@)
    }
}

impl<V: View> StrMap<V> {
    #[verifier::type_invariant]
    closed spec fn keys_ascend(self) -> bool {
        sorted_keys(entry_views(self.entries@))
    }

    /// An empty map.
    pub fn new() -> (m: Self)
        ensures
            m@ == Seq::<(Seq<char>, V::V)>::empty(),
    {
        let m = StrMap { entries: Vec::new() };
        assert(m@ =~= Seq::<(Seq<char>, V::V)>::empty());
        m
    }

    /// Number of entries.
    pub fn len(&self) -> (n: usize)
        ensures
            n == self@.len(),
            sorted_keys(self@),
    {
        proof {
            use_type_invariant(self);
        }
        self.entries.len()
    }

    /// The entries, in ascending key order.
    pub fn entries(&self) -> (e: &Vec<(String, V)>)
        ensures
            entry_views(e@) == self@,
            sorted_keys(self@),
    {
        proof {
            use_type_invariant(self);
        }
        &self.entries
    }

    /// Consumes the map, handing out its entries in ascending key order.
    pub fn into_entries(self) -> (e: Vec<(String, V)>)
        ensures
            entry_views(e@) == self@,
            sorted_keys(self@),
    {
        proof {
            use_type_invariant(&self);
        }
        self.entries
    }

    /// Where `key` stands: `Ok(i)` when stored at `i`, else `Err(p)` with
    /// every key before `p` below `key` and every key from `p` on above it.
    fn find(&self, key: &Vec<char>) -> (r: Result<usize, usize>)
        ensures
            match r {
                Ok(i) => i < self@.len() && self@[i as int].0 == key@,
                Err(p) => p <= self@.len() && (p < self@.len() ==> chars_lt(
                    key@,
                    self@[p as int].0,
                )),
            },
            forall|j: int|
                0 <= j < (match r {
                    Ok(i) => i,
                    Err(p) => p,
                }) ==> chars_lt(#[trigger] self@[j].0, key@),
    {
        let n = self.entries.len();
        for i in 0..n
            invariant
                n == self.entries@.len(),
                forall|j: int| 0 <= j < i ==> chars_lt(#[trigger] self@[j].0, key@),
        {
            let k = str_chars(self.entries[i].0.as_str());
            assert(k@ == self@[i as int].0);
            let c = compare_chars(&k, key);
            if c == 0 {
                return Ok(i);
            }
            if c > 0 {
                return Err(i);
            }
        }
        Err(n)
    }

    /// `BTreeMap::get`.
    pub fn get(&self, key: &str) -> (r: Option<&V>)
        ensures
            match r {
                Some(v) => assoc_get(self@, key@) == Some(v@),
                None => assoc_get(self@, key@) is None,
            },
    {
        proof {
            use_type_invariant(self);
            lemma_sorted_get(self@, key@);
        }
        let kc = str_chars(key);
        match self.find(&kc) {
            Ok(i) => Some(&self.entries[i].1),
            Err(p) => {
                proof {
                    assert forall|j: int| 0 <= j < self@.len() implies self@[j].0 != key@ by {
                        lemma_chars_lt_irreflexive(key@);
                        if j >= p {
                            if j > p {
                                assert(chars_lt(self@[p as int].0, self@[j].0));
                                lemma_chars_lt_transitive(key@, self@[p as int].0, self@[j].0);
                            }
                        }
                    }
                    lemma_get_absent(self@, key@);
                }
                None
            },
        }
    }

    /// `BTreeMap::insert`, without the previous value.
    pub fn insert(&mut self, key: String, value: V)
        ensures
            final(self)@ == assoc_insert(old(self)@, key@, value@),
            sorted_keys(old(self)@),
    {
        proof {
            use_type_invariant(&*self);
        }
        let kc = str_chars(key.as_str());
        let ghost s = self@;
        match self.find(&kc) {
            Ok(i) => {
                proof {
                    lemma_insert_at(s, key@, value@, i as int, i + 1);
                    lemma_insert_sorted(s, key@, value@);
                }
                let mut entries: Vec<(String, V)> = Vec::new();
                std::mem::swap(&mut entries, &mut self.entries);
                entries.set(i, (key, value));
                assert(entry_views(entries@) =~= s.take(i as int) + seq![(key@, value@)] + s.skip(
                    i + 1,
                ));
                self.entries = entries;
            },
            Err(p) => {
                proof {
                    lemma_insert_at(s, key@, value@, p as int, p as int);
                    lemma_insert_sorted(s, key@, value@);
                }
                let mut entries: Vec<(String, V)> = Vec::new();
                std::mem::swap(&mut entries, &mut self.entries);
                entries.insert(p, (key, value));
                assert(entry_views(entries@) =~= s.take(p as int) + seq![(key@, value@)] + s.skip(
                    p as int,
                ));
                self.entries = entries;
            },
        }
    }

    /// `BTreeMap::remove`.
    pub fn remove(&mut self, key: &str) -> (r: Option<V>)
        ensures
            final(self)@ == assoc_remove(old(self)@, key@),
            sorted_keys(old(self)@),
            match r {
                Some(v) => assoc_get(old(self)@, key@) == Some(v@),
                None => assoc_get(old(self)@, key@) is None,
            },
    {
        proof {
            use_type_invariant(&*self);
            lemma_sorted_get(self@, key@);
        }
        let kc = str_chars(key);
        let ghost s = self@;
        match self.find(&kc) {
            Ok(i) => {
                proof {
                    assert forall|j: int| 0 <= j < i implies s[j].0 != key@ by {
                        lemma_chars_lt_irreflexive(key@);
                    }
                    lemma_remove_at(s, key@, i as int);
                }
                let mut entries: Vec<(String, V)> = Vec::new();
                std::mem::swap(&mut entries, &mut self.entries);
                let (_k, v) = entries.remove(i);
                assert(entry_views(entries@) =~= s.take(i as int) + s.skip(i + 1));
                proof {
                    assert forall|a: int, b: int|
                        0 <= a < b < entry_views(entries@).len() implies chars_lt(
                        #[trigger] entry_views(entries@)[a].0,
                        #[trigger] entry_views(entries@)[b].0,
                    ) by {
                        let a2 = if a < i {
                            a
                        } else {
                            a + 1
                        };
                        let b2 = if b < i {
                            b
                        } else {
                            b + 1
                        };
                        assert(chars_lt(s[a2].0, s[b2].0));
                    }
                }
                self.entries = entries;
                Some(v)
            },
            Err(p) => {
                proof {
                    assert forall|j: int| 0 <= j < s.len() implies s[j].0 != key@ by {
                        lemma_chars_lt_irreflexive(key@);
                        if j > p {
                            assert(chars_lt(s[p as int].0, s[j].0));
                            lemma_chars_lt_transitive(key@, s[p as int].0, s[j].0);
                        }
                    }
                    lemma_remove_absent(s, key@);
                }
                None
            },
        }
    }
}

} // verus!

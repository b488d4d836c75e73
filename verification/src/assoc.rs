//! Sequences of key/value pairs read as finite maps.
//!
//! The registry and the connection table keep their entries in a vector in
//! which no key occurs twice. Their contracts speak of the map that such a
//! vector stands for; the lemmas here relate edits of the sequence to edits
//! of the map.

use vstd::prelude::*;

verus! {

/// No key occurs at two positions of `s`.
pub open spec fn keys_distinct<K, V>(s: Seq<(K, V)>) -> bool {
    forall|i: int, j: int| 0 <= i < j < s.len() ==> s[i].0 != s[j].0
}

/// The map that `s` stands for: each pair is inserted in turn, so that a
/// later pair with the same key replaces an earlier one.
pub open spec fn assoc_map<K, V>(s: Seq<(K, V)>) -> Map<K, V>
    decreases s.len(),
{
    if s.len() == 0 {
        Map::empty()
    } else {
        assoc_map(s.drop_last()).insert(s.last().0, s.last().1)
    }
}

/// A key is in the map exactly when some position of the sequence holds it.
pub proof fn lemma_assoc_dom<K, V>(s: Seq<(K, V)>, k: K)
    ensures
        assoc_map(s).dom().contains(k) <==> exists|i: int| 0 <= i < s.len() && s[i].0 == k,
    decreases s.len(),
{
    if s.len() > 0 {
        let t = s.drop_last();
        lemma_assoc_dom(t, k);
        if assoc_map(s).dom().contains(k) {
            if s.last().0 == k {
                assert(s[s.len() - 1].0 == k);
            } else {
                let i = choose|i: int| 0 <= i < t.len() && t[i].0 == k;
                assert(s[i].0 == k);
            }
        }
        if exists|i: int| 0 <= i < s.len() && s[i].0 == k {
            let i = choose|i: int| 0 <= i < s.len() && s[i].0 == k;
            if i < s.len() - 1 {
                assert(t[i].0 == k);
            }
        }
    }
}

/// The map is finite.
pub proof fn lemma_assoc_finite<K, V>(s: Seq<(K, V)>)
    ensures
        assoc_map(s).dom().finite(),
    decreases s.len(),
{
    if s.len() > 0 {
        lemma_assoc_finite(s.drop_last());
    }
}

/// With distinct keys, the map sends the key at position `i` to the value at
/// position `i`.
pub proof fn lemma_assoc_value<K, V>(s: Seq<(K, V)>, i: int)
    requires
        keys_distinct(s),
        0 <= i < s.len(),
    ensures
        assoc_map(s).dom().contains(s[i].0),
        assoc_map(s)[s[i].0] == s[i].1,
    decreases s.len(),
{
    let t = s.drop_last();
    if i < s.len() - 1 {
        assert(keys_distinct(t));
        lemma_assoc_value(t, i);
        assert(t[i] == s[i]);
        assert(s[i].0 != s[s.len() - 1].0);
    }
}

/// With distinct keys, the map has as many keys as the sequence has pairs.
pub proof fn lemma_assoc_len<K, V>(s: Seq<(K, V)>)
    requires
        keys_distinct(s),
    ensures
        assoc_map(s).dom().finite(),
        assoc_map(s).dom().len() == s.len(),
    decreases s.len(),
{
    lemma_assoc_finite(s);
    if s.len() > 0 {
        let t = s.drop_last();
        assert(keys_distinct(t));
        lemma_assoc_len(t);
        lemma_assoc_dom(t, s.last().0);
        if assoc_map(t).dom().contains(s.last().0) {
            let i = choose|i: int| 0 <= i < t.len() && t[i].0 == s.last().0;
            assert(s[i].0 == s[s.len() - 1].0);
        }
    }
}

/// Appending a pair inserts it.
pub proof fn lemma_assoc_push<K, V>(s: Seq<(K, V)>, k: K, v: V)
    ensures
        assoc_map(s.push((k, v))) == assoc_map(s).insert(k, v),
        keys_distinct(s) && !assoc_map(s).dom().contains(k) ==> keys_distinct(s.push((k, v))),
{
    let p = s.push((k, v));
    assert(p.drop_last() =~= s);
    if keys_distinct(s) && !assoc_map(s).dom().contains(k) {
        assert forall|i: int, j: int| 0 <= i < j < p.len() implies p[i].0 != p[j].0 by {
            if j == s.len() {
                lemma_assoc_dom(s, k);
                assert(s[i].0 != k);
            }
        }
    }
}

/// With distinct keys, replacing the value at position `i` replaces the
/// value of that key.
pub proof fn lemma_assoc_update<K, V>(s: Seq<(K, V)>, i: int, v: V)
    requires
        keys_distinct(s),
        0 <= i < s.len(),
    ensures
        keys_distinct(s.update(i, (s[i].0, v))),
        assoc_map(s.update(i, (s[i].0, v))) == assoc_map(s).insert(s[i].0, v),
{
    let k = s[i].0;
    let u = s.update(i, (k, v));
    assert(keys_distinct(u)) by {
        assert forall|a: int, b: int| 0 <= a < b < u.len() implies u[a].0 != u[b].0 by {
            assert(u[a].0 == s[a].0);
            assert(u[b].0 == s[b].0);
        }
    }
    let lhs = assoc_map(u);
    let rhs = assoc_map(s).insert(k, v);
    assert forall|x: K| lhs.dom().contains(x) <==> rhs.dom().contains(x) by {
        lemma_assoc_dom(u, x);
        lemma_assoc_dom(s, x);
        if lhs.dom().contains(x) {
            let j = choose|j: int| 0 <= j < u.len() && u[j].0 == x;
            assert(s[j].0 == x);
        }
        if rhs.dom().contains(x) {
            if x == k {
                assert(u[i].0 == x);
            } else {
                let j = choose|j: int| 0 <= j < s.len() && s[j].0 == x;
                assert(u[j].0 == x);
            }
        }
    }
    assert forall|x: K| lhs.dom().contains(x) implies lhs[x] == rhs[x] by {
        lemma_assoc_dom(u, x);
        let j = choose|j: int| 0 <= j < u.len() && u[j].0 == x;
        lemma_assoc_value(u, j);
        if j != i {
            lemma_assoc_value(s, j);
            assert(u[j] == s[j]);
        }
    }
    assert(lhs =~= rhs);
}

/// With distinct keys, dropping position `i` removes that key.
pub proof fn lemma_assoc_remove<K, V>(s: Seq<(K, V)>, i: int)
    requires
        keys_distinct(s),
        0 <= i < s.len(),
    ensures
        keys_distinct(s.remove(i)),
        assoc_map(s.remove(i)) == assoc_map(s).remove(s[i].0),
{
    let k = s[i].0;
    let r = s.remove(i);
    assert(keys_distinct(r)) by {
        assert forall|a: int, b: int| 0 <= a < b < r.len() implies r[a].0 != r[b].0 by {
            let a2 = if a < i { a } else { a + 1 };
            let b2 = if b < i { b } else { b + 1 };
            assert(r[a] == s[a2]);
            assert(r[b] == s[b2]);
        }
    }
    let lhs = assoc_map(r);
    let rhs = assoc_map(s).remove(k);
    assert forall|x: K| lhs.dom().contains(x) <==> rhs.dom().contains(x) by {
        lemma_assoc_dom(r, x);
        lemma_assoc_dom(s, x);
        if lhs.dom().contains(x) {
            let j = choose|j: int| 0 <= j < r.len() && r[j].0 == x;
            let j2 = if j < i { j } else { j + 1 };
            assert(r[j] == s[j2]);
            assert(s[j2].0 == x);
            assert(j2 != i);
            if j2 < i {
                assert(s[j2].0 != s[i].0);
            } else {
                assert(s[i].0 != s[j2].0);
            }
        }
        if rhs.dom().contains(x) {
            let j = choose|j: int| 0 <= j < s.len() && s[j].0 == x;
            assert(j != i);
            let j2 = if j < i { j } else { j - 1 };
            assert(r[j2] == s[j]);
            assert(r[j2].0 == x);
        }
    }
    assert forall|x: K| lhs.dom().contains(x) implies lhs[x] == rhs[x] by {
        lemma_assoc_dom(r, x);
        let j = choose|j: int| 0 <= j < r.len() && r[j].0 == x;
        let j2 = if j < i { j } else { j + 1 };
        assert(r[j] == s[j2]);
        lemma_assoc_value(r, j);
        lemma_assoc_value(s, j2);
    }
    assert(lhs =~= rhs);
}

} // verus!

//! Association lists: sequences of key-value pairs read as maps, and lists read as sets.

use vstd::prelude::*;

verus! {

/// No key occurs twice.
pub open spec fn keys_unique<K, V>(s: Seq<(K, V)>) -> bool {
    forall|i: int, j: int| 0 <= i < j < s.len() ==> #[trigger] s[i].0 != #[trigger] s[j].0
}

/// The map of a list of pairs; a later pair wins over an earlier one of the same key.
pub open spec fn assoc<K, V>(s: Seq<(K, V)>) -> Map<K, V>
    decreases s.len(),
{
    if s.len() == 0 {
        Map::empty()
    } else {
        assoc(s.drop_last()).insert(s.last().0, s.last().1)
    }
}

/// The keys of the map are those of the pairs; with unique keys, each pair's value is
/// the map's value of its key.
pub proof fn lemma_assoc<K, V>(s: Seq<(K, V)>)
    ensures
        forall|k: K| #[trigger] assoc(s).contains_key(k) <==> exists|i: int| 0 <= i < s.len() && s[i].0 == k,
        keys_unique(s) ==> forall|i: int| 0 <= i < s.len() ==> #[trigger] assoc(s)[s[i].0] == s[i].1,
    decreases s.len(),
{
    if s.len() > 0 {
        let t = s.drop_last();
        lemma_assoc(t);
        assert forall|k: K| #[trigger] assoc(s).contains_key(k) <==> exists|i: int| 0 <= i < s.len() && s[i].0 == k by {
            if assoc(s).contains_key(k) && k != s.last().0 {
                assert(assoc(t).contains_key(k));
                let i = choose|i: int| 0 <= i < t.len() && t[i].0 == k;
                assert(s[i] == t[i]);
            }
            if assoc(s).contains_key(k) && k == s.last().0 {
                assert(s[s.len() - 1].0 == k);
            }
            if exists|i: int| 0 <= i < s.len() && s[i].0 == k {
                let i = choose|i: int| 0 <= i < s.len() && s[i].0 == k;
                if i < s.len() - 1 {
                    assert(t[i] == s[i]);
                    assert(assoc(t).contains_key(k));
                }
            }
        }
        if keys_unique(s) {
            assert forall|i: int, j: int| 0 <= i < j < t.len() implies #[trigger] t[i].0 != #[trigger] t[j].0 by {
                assert(t[i] == s[i] && t[j] == s[j]);
            }
            assert forall|i: int| 0 <= i < s.len() implies #[trigger] assoc(s)[s[i].0] == s[i].1 by {
                if i < s.len() - 1 {
                    assert(t[i] == s[i]);
                    assert(s[i].0 != s[s.len() - 1].0);
                    assert(assoc(t)[t[i].0] == t[i].1);
                }
            }
        }
    }
}

/// Changing the value at `i` changes the map at that key.
pub proof fn lemma_assoc_update<K, V>(s: Seq<(K, V)>, i: int, v: V)
    requires
        keys_unique(s),
        0 <= i < s.len(),
    ensures
        keys_unique(s.update(i, (s[i].0, v))),
        assoc(s.update(i, (s[i].0, v))) == assoc(s).insert(s[i].0, v),
{
    let u = s.update(i, (s[i].0, v));
    assert forall|a: int, b: int| 0 <= a < b < u.len() implies #[trigger] u[a].0 != #[trigger] u[b].0 by {
        assert(u[a].0 == s[a].0 && u[b].0 == s[b].0);
    }
    lemma_assoc(s);
    lemma_assoc(u);
    assert forall|k: K| #[trigger] assoc(u).contains_key(k) <==> assoc(s).insert(s[i].0, v).contains_key(k) by {
        if exists|j: int| 0 <= j < u.len() && u[j].0 == k {
            let j = choose|j: int| 0 <= j < u.len() && u[j].0 == k;
            assert(s[j].0 == k);
        }
        if assoc(s).contains_key(k) {
            let j = choose|j: int| 0 <= j < s.len() && s[j].0 == k;
            assert(u[j].0 == k);
        }
        if k == s[i].0 {
            assert(u[i].0 == k);
        }
    }
    assert forall|k: K| #[trigger] assoc(u).contains_key(k) implies assoc(u)[k] == assoc(s).insert(s[i].0, v)[k] by {
        let j = choose|j: int| 0 <= j < u.len() && u[j].0 == k;
        assert(assoc(u)[u[j].0] == u[j].1);
        if j != i {
            assert(assoc(s)[s[j].0] == s[j].1);
        }
    }
    assert(assoc(u) =~= assoc(s).insert(s[i].0, v));
}

/// Adding a pair with a new key adds it to the map.
pub proof fn lemma_assoc_push<K, V>(s: Seq<(K, V)>, k: K, v: V)
    requires
        keys_unique(s),
        !assoc(s).contains_key(k),
    ensures
        keys_unique(s.push((k, v))),
        assoc(s.push((k, v))) == assoc(s).insert(k, v),
{
    let p = s.push((k, v));
    lemma_assoc(s);
    assert forall|a: int, b: int| 0 <= a < b < p.len() implies #[trigger] p[a].0 != #[trigger] p[b].0 by {
        assert(p[a] == s[a]);
        if b < s.len() {
            assert(p[b] == s[b]);
        } else {
            assert(s[a].0 != k);
        }
    }
    assert(p.drop_last() =~= s);
}

/// Removing the pair at `i` removes its key from the map.
pub proof fn lemma_assoc_remove<K, V>(s: Seq<(K, V)>, i: int)
    requires
        keys_unique(s),
        0 <= i < s.len(),
    ensures
        keys_unique(s.remove(i)),
        assoc(s.remove(i)) == assoc(s).remove(s[i].0),
{
    let r = s.remove(i);
    assert forall|a: int, b: int| 0 <= a < b < r.len() implies #[trigger] r[a].0 != #[trigger] r[b].0 by {
        let a2 = if a < i { a } else { a + 1 };
        let b2 = if b < i { b } else { b + 1 };
        assert(r[a] == s[a2] && r[b] == s[b2]);
    }
    lemma_assoc(s);
    lemma_assoc(r);
    assert forall|k: K| #[trigger] assoc(r).contains_key(k) <==> assoc(s).remove(s[i].0).contains_key(k) by {
        if exists|j: int| 0 <= j < r.len() && r[j].0 == k {
            let j = choose|j: int| 0 <= j < r.len() && r[j].0 == k;
            let j2 = if j < i { j } else { j + 1 };
            assert(r[j] == s[j2]);
        }
        if assoc(s).contains_key(k) && k != s[i].0 {
            let j = choose|j: int| 0 <= j < s.len() && s[j].0 == k;
            if j < i {
                assert(r[j] == s[j]);
            } else {
                assert(r[j - 1] == s[j]);
            }
        }
    }
    assert forall|k: K| #[trigger] assoc(r).contains_key(k) implies assoc(r)[k] == assoc(s)[k] by {
        let j = choose|j: int| 0 <= j < r.len() && r[j].0 == k;
        let j2 = if j < i { j } else { j + 1 };
        assert(r[j] == s[j2]);
        assert(assoc(r)[r[j].0] == r[j].1);
        assert(assoc(s)[s[j2].0] == s[j2].1);
    }
    assert(assoc(r) =~= assoc(s).remove(s[i].0));
}

} // verus!

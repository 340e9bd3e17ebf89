//! Association lists: sequences of key/value pairs read as maps, where
//! no key occurs twice.

use vstd::prelude::*;

verus! {

/// The map that a list of pairs describes (a later pair wins).
pub open spec fn pairs_map<K, V>(s: Seq<(K, V)>) -> Map<K, V>
    decreases s.len(),
{
    if s.len() == 0 {
        Map::empty()
    } else {
        pairs_map(s.drop_last()).insert(s.last().0, s.last().1)
    }
}

/// No key occurs twice.
pub open spec fn keys_unique<K, V>(s: Seq<(K, V)>) -> bool {
    forall|i: int, j: int| 0 <= i < j < s.len() ==> s[i].0 != s[j].0
}

/// The map has exactly the list's keys, each with its value.
pub proof fn lemma_pairs_map<K, V>(s: Seq<(K, V)>)
    requires
        keys_unique(s),
    ensures
        forall|k: K| #[trigger] pairs_map(s).contains_key(k) <==> exists|i: int| 0 <= i < s.len() && s[i].0 == k,
        forall|i: int| 0 <= i < s.len() ==> #[trigger] pairs_map(s)[s[i].0] == s[i].1,
    decreases s.len(),
{
    if s.len() > 0 {
        let init = s.drop_last();
        assert(keys_unique(init)) by {
            assert forall|i: int, j: int| 0 <= i < j < init.len() implies init[i].0 != init[j].0 by {
                assert(init[i] == s[i] && init[j] == s[j]);
            }
        }
        lemma_pairs_map(init);
        assert forall|k: K| #[trigger] pairs_map(s).contains_key(k) <==> exists|i: int|
            0 <= i < s.len() && s[i].0 == k by {
            assert(pairs_map(s) == pairs_map(init).insert(s.last().0, s.last().1));
            if pairs_map(s).contains_key(k) {
                if k == s.last().0 {
                    assert(s[s.len() - 1].0 == k);
                } else {
                    assert(pairs_map(init).contains_key(k));
                    let i = choose|i: int| 0 <= i < init.len() && init[i].0 == k;
                    assert(s[i] == init[i]);
                }
            }
            if exists|i: int| 0 <= i < s.len() && s[i].0 == k {
                let i = choose|i: int| 0 <= i < s.len() && s[i].0 == k;
                if i < s.len() - 1 {
                    assert(init[i] == s[i]);
                    assert(pairs_map(init).contains_key(k));
                }
            }
        }
        assert forall|i: int| 0 <= i < s.len() implies #[trigger] pairs_map(s)[s[i].0] == s[i].1 by {
            assert(pairs_map(s) == pairs_map(init).insert(s.last().0, s.last().1));
            if i < s.len() - 1 {
                assert(init[i] == s[i]);
                assert(s[i].0 != s[s.len() - 1].0);
                assert(pairs_map(init)[init[i].0] == init[i].1);
            }
        }
    }
}

/// Replacing the value of the `i`th pair replaces the key's value.
pub proof fn lemma_pairs_map_update<K, V>(s: Seq<(K, V)>, i: int, v: V)
    requires
        keys_unique(s),
        0 <= i < s.len(),
    ensures
        keys_unique(s.update(i, (s[i].0, v))),
        pairs_map(s.update(i, (s[i].0, v))) == pairs_map(s).insert(s[i].0, v),
{
    let u = s.update(i, (s[i].0, v));
    assert(keys_unique(u)) by {
        assert forall|a: int, b: int| 0 <= a < b < u.len() implies u[a].0 != u[b].0 by {
            assert(u[a].0 == s[a].0 && u[b].0 == s[b].0);
        }
    }
    lemma_pairs_map(s);
    lemma_pairs_map(u);
    assert forall|k: K| #[trigger] pairs_map(u).contains_key(k) <==> pairs_map(s).insert(s[i].0, v).contains_key(
        k,
    ) by {
        if exists|j: int| 0 <= j < s.len() && s[j].0 == k {
            let j = choose|j: int| 0 <= j < s.len() && s[j].0 == k;
            assert(u[j].0 == k);
        }
        if exists|j: int| 0 <= j < u.len() && u[j].0 == k {
            let j = choose|j: int| 0 <= j < u.len() && u[j].0 == k;
            assert(s[j].0 == k);
        }
    }
    assert forall|k: K| #[trigger] pairs_map(u).contains_key(k) implies pairs_map(u)[k] == pairs_map(s).insert(
        s[i].0,
        v,
    )[k] by {
        let j = choose|j: int| 0 <= j < u.len() && u[j].0 == k;
        assert(pairs_map(u)[u[j].0] == u[j].1);
        if j != i {
            assert(pairs_map(s)[s[j].0] == s[j].1);
        }
    }
    assert(pairs_map(u) =~= pairs_map(s).insert(s[i].0, v));
}

/// Appending a pair with a new key keeps the keys unique.
pub proof fn lemma_pairs_push<K, V>(s: Seq<(K, V)>, k: K, v: V)
    requires
        keys_unique(s),
        forall|i: int| 0 <= i < s.len() ==> s[i].0 != k,
    ensures
        keys_unique(s.push((k, v))),
        pairs_map(s.push((k, v))) == pairs_map(s).insert(k, v),
{
    let p = s.push((k, v));
    assert(p.drop_last() =~= s);
    assert forall|a: int, b: int| 0 <= a < b < p.len() implies p[a].0 != p[b].0 by {
        if b == s.len() {
            assert(p[a] == s[a]);
        } else {
            assert(p[a] == s[a] && p[b] == s[b]);
        }
    }
}

/// Removing the `i`th pair removes its key.
pub proof fn lemma_pairs_map_remove<K, V>(s: Seq<(K, V)>, i: int)
    requires
        keys_unique(s),
        0 <= i < s.len(),
    ensures
        keys_unique(s.remove(i)),
        pairs_map(s.remove(i)) == pairs_map(s).remove(s[i].0),
{
    let r = s.remove(i);
    assert(keys_unique(r)) by {
        assert forall|a: int, b: int| 0 <= a < b < r.len() implies r[a].0 != r[b].0 by {
            let a2 = if a < i { a } else { a + 1 };
            let b2 = if b < i { b } else { b + 1 };
            assert(r[a] == s[a2] && r[b] == s[b2]);
        }
    }
    lemma_pairs_map(s);
    lemma_pairs_map(r);
    assert forall|k: K| #[trigger] pairs_map(r).contains_key(k) <==> pairs_map(s).remove(s[i].0).contains_key(k) by {
        if exists|j: int| 0 <= j < r.len() && r[j].0 == k {
            let j = choose|j: int| 0 <= j < r.len() && r[j].0 == k;
            let j2 = if j < i { j } else { j + 1 };
            assert(r[j] == s[j2]);
        }
        if k != s[i].0 && exists|j: int| 0 <= j < s.len() && s[j].0 == k {
            let j = choose|j: int| 0 <= j < s.len() && s[j].0 == k;
            if j < i {
                assert(r[j] == s[j]);
            } else {
                assert(r[j - 1] == s[j]);
            }
        }
    }
    assert forall|k: K| #[trigger] pairs_map(r).contains_key(k) implies pairs_map(r)[k] == pairs_map(s)[k] by {
        let j = choose|j: int| 0 <= j < r.len() && r[j].0 == k;
        let j2 = if j < i { j } else { j + 1 };
        assert(r[j] == s[j2]);
        assert(pairs_map(r)[r[j].0] == r[j].1);
        assert(pairs_map(s)[s[j2].0] == s[j2].1);
    }
    assert(pairs_map(r) =~= pairs_map(s).remove(s[i].0));
}

} // verus!

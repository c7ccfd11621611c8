//! The mathematical model shared by the keyed collections.
//!
//! Each store holds its records in a vector; this module models such a
//! vector as a sequence of key/value pairs with pairwise-distinct keys and
//! gives it a `Map` reading, together with the lemmas that relate in-place
//! replacement and appending to `Map::insert`.

use vstd::prelude::*;

verus! {

/// Whether some pair in `s` carries the key `k`.
pub open spec fn has_key<V>(s: Seq<(Seq<char>, V)>, k: Seq<char>) -> bool {
    exists|i: int| 0 <= i < s.len() && s[i].0 == k
}

/// The index of the pair carrying the key `k` (meaningful only when
/// [`has_key`] holds and the keys are distinct).
pub open spec fn index_of<V>(s: Seq<(Seq<char>, V)>, k: Seq<char>) -> int {
    choose|i: int| 0 <= i < s.len() && s[i].0 == k
}

/// Pairwise-distinct keys: the invariant of every store.
pub open spec fn unique_keys<V>(s: Seq<(Seq<char>, V)>) -> bool {
    forall|i: int, j: int| 0 <= i < j < s.len() ==> s[i].0 != s[j].0
}

/// The `Map` a pair sequence denotes.
pub open spec fn map_of<V>(s: Seq<(Seq<char>, V)>) -> Map<Seq<char>, V> {
    Map::new(|k: Seq<char>| has_key(s, k), |k: Seq<char>| s[index_of(s, k)].1)
}

/// With distinct keys, an index holding key `k` is the index [`index_of`]
/// denotes, and the map reads the value stored there.
pub proof fn lemma_found_index<V>(s: Seq<(Seq<char>, V)>, i: int)
    requires
        unique_keys(s),
        0 <= i < s.len(),
    ensures
        has_key(s, s[i].0),
        index_of(s, s[i].0) == i,
        map_of(s).contains_key(s[i].0),
        map_of(s)[s[i].0] == s[i].1,
{
    assert(has_key(s, s[i].0));
    let j = index_of(s, s[i].0);
    assert(0 <= j < s.len() && s[j].0 == s[i].0);
    if i < j {
        assert(s[i].0 != s[j].0);
    } else if j < i {
        assert(s[j].0 != s[i].0);
    }
}

/// An empty pair sequence denotes the empty map.
pub proof fn lemma_map_of_empty<V>()
    ensures
        unique_keys(Seq::<(Seq<char>, V)>::empty()),
        map_of(Seq::<(Seq<char>, V)>::empty()) == Map::<Seq<char>, V>::empty(),
{
    assert(map_of(Seq::<(Seq<char>, V)>::empty()) =~= Map::<Seq<char>, V>::empty());
}

/// Replacing the value at the index that holds `k` is `Map::insert`.
pub proof fn lemma_map_of_update<V>(s: Seq<(Seq<char>, V)>, i: int, v: V)
    requires
        unique_keys(s),
        0 <= i < s.len(),
    ensures
        unique_keys(s.update(i, (s[i].0, v))),
        map_of(s.update(i, (s[i].0, v))) == map_of(s).insert(s[i].0, v),
{
    let k = s[i].0;
    let s2 = s.update(i, (k, v));
    assert forall|a: int| 0 <= a < s2.len() implies s2[a].0 == s[a].0 by {}
    assert(unique_keys(s2));
    assert forall|x: Seq<char>| has_key(s2, x) implies has_key(s, x) by {
        let w = choose|w: int| 0 <= w < s2.len() && s2[w].0 == x;
        assert(s[w].0 == x);
    }
    assert forall|x: Seq<char>| has_key(s, x) implies has_key(s2, x) by {
        let w = choose|w: int| 0 <= w < s.len() && s[w].0 == x;
        assert(s2[w].0 == x);
    }
    assert forall|x: Seq<char>| has_key(s2, x) implies map_of(s2)[x] == map_of(s).insert(
        k,
        v,
    )[x] by {
        if x == k {
            lemma_found_index(s2, i);
        } else {
            let w = choose|w: int| 0 <= w < s.len() && s[w].0 == x;
            lemma_found_index(s, w);
            lemma_found_index(s2, w);
        }
    }
    assert(map_of(s2) =~= map_of(s).insert(k, v));
}

/// Appending a pair with a fresh key is `Map::insert`.
pub proof fn lemma_map_of_push<V>(s: Seq<(Seq<char>, V)>, k: Seq<char>, v: V)
    requires
        unique_keys(s),
        !has_key(s, k),
    ensures
        unique_keys(s.push((k, v))),
        map_of(s.push((k, v))) == map_of(s).insert(k, v),
{
    let s2 = s.push((k, v));
    assert forall|a: int, b: int| 0 <= a < b < s2.len() implies s2[a].0 != s2[b].0 by {
        if b < s.len() {
            assert(s[a].0 != s[b].0);
        } else {
            assert(s2[b].0 == k);
            assert(s2[a].0 == s[a].0);
            if s[a].0 == k {
                assert(has_key(s, k));
            }
        }
    }
    assert forall|x: Seq<char>| has_key(s2, x) implies (x == k || has_key(s, x)) by {
        let w = choose|w: int| 0 <= w < s2.len() && s2[w].0 == x;
        if w < s.len() {
            assert(s[w].0 == x);
        }
    }
    assert forall|x: Seq<char>| has_key(s, x) implies has_key(s2, x) by {
        let w = choose|w: int| 0 <= w < s.len() && s[w].0 == x;
        assert(s2[w].0 == x);
    }
    assert(has_key(s2, k)) by {
        assert(s2[s.len() as int].0 == k);
    }
    assert forall|x: Seq<char>| has_key(s2, x) implies map_of(s2)[x] == map_of(s).insert(
        k,
        v,
    )[x] by {
        if x == k {
            lemma_found_index(s2, s.len() as int);
        } else {
            let w = choose|w: int| 0 <= w < s.len() && s[w].0 == x;
            lemma_found_index(s, w);
            lemma_found_index(s2, w);
        }
    }
    assert(map_of(s2) =~= map_of(s).insert(k, v));
}

} // verus!

//! Stores kept as a vector of entries with distinct keys, seen as maps from the keys' views.
use vstd::prelude::*;

verus! {

/// No key occurs twice among the entries.
pub open spec fn distinct_keys<K: View, V>(s: Seq<(K, V)>) -> bool {
    forall|i: int, j: int| 0 <= i < j < s.len() ==> (#[trigger] s[i]).0@ != (#[trigger] s[j]).0@
}

/// Some entry has this key.
pub open spec fn has_key<K: View, V>(s: Seq<(K, V)>, k: K::V) -> bool {
    exists|j: int| 0 <= j < s.len() && (#[trigger] s[j]).0@ == k
}

/// The entries as a map from key to value.
pub open spec fn keyed_map<K: View, V>(s: Seq<(K, V)>) -> Map<K::V, V> {
    Map::new(
        |k: K::V| has_key(s, k),
        |k: K::V| s[choose|j: int| 0 <= j < s.len() && (#[trigger] s[j]).0@ == k].1,
    )
}

/// The value under an entry's key is that entry's value.
pub proof fn lemma_keyed_lookup<K: View, V>(s: Seq<(K, V)>, j: int)
    requires
        distinct_keys(s),
        0 <= j < s.len(),
    ensures
        keyed_map(s).dom().contains(s[j].0@),
        keyed_map(s)[s[j].0@] == s[j].1,
{
    let k = s[j].0@;
    assert(has_key(s, k));
    let c = choose|i: int| 0 <= i < s.len() && (#[trigger] s[i]).0@ == k;
    if c < j {
        assert(s[c].0@ != s[j].0@);
    } else if c > j {
        assert(s[j].0@ != s[c].0@);
    }
}

/// Removing an entry removes its key from the map.
pub proof fn lemma_keyed_remove<K: View, V>(s: Seq<(K, V)>, i: int)
    requires
        distinct_keys(s),
        0 <= i < s.len(),
    ensures
        distinct_keys(s.remove(i)),
        keyed_map(s.remove(i)) =~= keyed_map(s).remove(s[i].0@),
{
    let t = s.remove(i);
    let k = s[i].0@;
    assert forall|a: int, b: int| 0 <= a < b < t.len() implies (#[trigger] t[a]).0@ != (
    #[trigger] t[b]).0@ by {
        let a2 = if a < i { a } else { a + 1 };
        let b2 = if b < i { b } else { b + 1 };
        assert(t[a] == s[a2]);
        assert(t[b] == s[b2]);
    }
    assert forall|x: K::V| #[trigger] keyed_map(t).dom().contains(x) <==> keyed_map(s).remove(
        k,
    ).dom().contains(x) by {
        if has_key(t, x) {
            let j = choose|j: int| 0 <= j < t.len() && (#[trigger] t[j]).0@ == x;
            let j2 = if j < i { j } else { j + 1 };
            assert(t[j] == s[j2]);
            if x == k {
                if j2 < i {
                    assert(s[j2].0@ != s[i].0@);
                } else {
                    assert(s[i].0@ != s[j2].0@);
                }
            }
        }
        if has_key(s, x) && x != k {
            let j = choose|j: int| 0 <= j < s.len() && (#[trigger] s[j]).0@ == x;
            assert(j != i);
            let j2 = if j < i { j } else { j - 1 };
            assert(t[j2] == s[j]);
        }
    }
    assert forall|x: K::V| #[trigger] keyed_map(t).dom().contains(x) implies keyed_map(t)[x]
        == keyed_map(s)[x] by {
        let j = choose|j: int| 0 <= j < t.len() && (#[trigger] t[j]).0@ == x;
        let j2 = if j < i { j } else { j + 1 };
        assert(t[j] == s[j2]);
        lemma_keyed_lookup(t, j);
        lemma_keyed_lookup(s, j2);
    }
}

/// Appending an entry with a new key adds it to the map.
pub proof fn lemma_keyed_push<K: View, V>(s: Seq<(K, V)>, e: (K, V))
    requires
        distinct_keys(s),
        !has_key(s, e.0@),
    ensures
        distinct_keys(s.push(e)),
        keyed_map(s.push(e)) =~= keyed_map(s).insert(e.0@, e.1),
{
    let t = s.push(e);
    assert forall|a: int, b: int| 0 <= a < b < t.len() implies (#[trigger] t[a]).0@ != (
    #[trigger] t[b]).0@ by {
        assert(t[a] == s[a]);
        if b == s.len() {
            if s[a].0@ == e.0@ {
                assert(has_key(s, e.0@));
            }
        } else {
            assert(t[b] == s[b]);
        }
    }
    assert forall|x: K::V| #[trigger] keyed_map(t).dom().contains(x) <==> keyed_map(s).insert(
        e.0@,
        e.1,
    ).dom().contains(x) by {
        if has_key(t, x) {
            let j = choose|j: int| 0 <= j < t.len() && (#[trigger] t[j]).0@ == x;
            if j < s.len() {
                assert(t[j] == s[j]);
            }
        }
        if has_key(s, x) {
            let j = choose|j: int| 0 <= j < s.len() && (#[trigger] s[j]).0@ == x;
            assert(t[j] == s[j]);
        }
        if x == e.0@ {
            assert(t[s.len() as int] == e);
        }
    }
    assert forall|x: K::V| #[trigger] keyed_map(t).dom().contains(x) implies keyed_map(t)[x]
        == keyed_map(s).insert(e.0@, e.1)[x] by {
        let j = choose|j: int| 0 <= j < t.len() && (#[trigger] t[j]).0@ == x;
        lemma_keyed_lookup(t, j);
        if j < s.len() {
            assert(t[j] == s[j]);
            lemma_keyed_lookup(s, j);
            if x == e.0@ {
                assert(has_key(s, e.0@));
            }
        } else {
            assert(t[j] == e);
        }
    }
}

/// Replacing an entry by one with the same key sets that key's value.
pub proof fn lemma_keyed_update<K: View, V>(s: Seq<(K, V)>, i: int, e: (K, V))
    requires
        distinct_keys(s),
        0 <= i < s.len(),
        e.0@ == s[i].0@,
    ensures
        distinct_keys(s.update(i, e)),
        keyed_map(s.update(i, e)) =~= keyed_map(s).insert(e.0@, e.1),
{
    lemma_keyed_remove(s, i);
    let r = s.remove(i);
    assert(!keyed_map(r).dom().contains(e.0@));
    assert(!has_key(r, e.0@));
    lemma_keyed_push(r, e);
    let t = s.update(i, e);
    assert forall|a: int, b: int| 0 <= a < b < t.len() implies (#[trigger] t[a]).0@ != (
    #[trigger] t[b]).0@ by {
        if a != i {
            assert(t[a] == s[a]);
        }
        if b != i {
            assert(t[b] == s[b]);
        }
    }
    assert forall|x: K::V| #[trigger] keyed_map(t).dom().contains(x) <==> keyed_map(s).insert(
        e.0@,
        e.1,
    ).dom().contains(x) by {
        if has_key(t, x) {
            let j = choose|j: int| 0 <= j < t.len() && (#[trigger] t[j]).0@ == x;
            if j != i {
                assert(t[j] == s[j]);
            }
        }
        if has_key(s, x) {
            let j = choose|j: int| 0 <= j < s.len() && (#[trigger] s[j]).0@ == x;
            if j != i {
                assert(t[j] == s[j]);
            } else {
                assert(t[i] == e);
            }
        }
        if x == e.0@ {
            assert(t[i] == e);
        }
    }
    assert forall|x: K::V| #[trigger] keyed_map(t).dom().contains(x) implies keyed_map(t)[x]
        == keyed_map(s).insert(e.0@, e.1)[x] by {
        let j = choose|j: int| 0 <= j < t.len() && (#[trigger] t[j]).0@ == x;
        lemma_keyed_lookup(t, j);
        if j != i {
            assert(t[j] == s[j]);
            lemma_keyed_lookup(s, j);
        } else {
            assert(t[j] == e);
        }
    }
}

} // verus!

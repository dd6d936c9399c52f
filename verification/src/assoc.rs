//! Association lists with distinct keys, viewed as finite maps.
use vstd::prelude::*;

verus! {

/// The key of an entry.
pub open spec fn key_of<K, V>(e: (K, V)) -> K {
    e.0
}

/// No key occurs twice.
pub open spec fn keys_distinct<K, V>(s: Seq<(K, V)>) -> bool {
    forall|i: int, j: int|
        0 <= i < s.len() && 0 <= j < s.len() && i != j ==> #[trigger] key_of(s[i]) != #[trigger] key_of(s[j])
}

/// Whether `k` is the key of some entry.
pub open spec fn has_key<K, V>(s: Seq<(K, V)>, k: K) -> bool {
    exists|i: int| 0 <= i < s.len() && key_of(s[i]) == k
}

/// The map that a list of entries stands for.
pub open spec fn assoc_map<K, V>(s: Seq<(K, V)>) -> Map<K, V> {
    Map::new(
        |k: K| has_key(s, k),
        |k: K| s[choose|i: int| 0 <= i < s.len() && key_of(s[i]) == k].1,
    )
}

pub proof fn lemma_assoc_at<K, V>(s: Seq<(K, V)>, i: int)
    requires
        keys_distinct(s),
        0 <= i < s.len(),
    ensures
        assoc_map(s).contains_key(s[i].0),
        assoc_map(s)[s[i].0] == s[i].1,
{
    let k = s[i].0;
    assert(key_of(s[i]) == k);
    let j = choose|j: int| 0 <= j < s.len() && key_of(s[j]) == k;
    assert(j == i);
}

/// Appending an entry with a new key inserts it.
pub proof fn lemma_assoc_push<K, V>(s: Seq<(K, V)>, k: K, v: V)
    requires
        keys_distinct(s),
        !has_key(s, k),
    ensures
        keys_distinct(s.push((k, v))),
        assoc_map(s.push((k, v))) == assoc_map(s).insert(k, v),
{
    let t = s.push((k, v));
    let n = s.len() as int;
    assert forall|a: int, b: int|
        0 <= a < t.len() && 0 <= b < t.len() && a != b implies #[trigger] key_of(t[a]) != #[trigger] key_of(
        t[b],
    ) by {
        if a < n && b < n {
            assert(key_of(s[a]) != key_of(s[b]));
        } else if a < n {
            assert(key_of(s[a]) != k);
        } else {
            assert(key_of(s[b]) != k);
        }
    }
    assert forall|x: K| #[trigger] assoc_map(t).contains_key(x) <==> assoc_map(s).insert(
        k,
        v,
    ).contains_key(x) by {
        if has_key(t, x) {
            let a = choose|a: int| 0 <= a < t.len() && key_of(t[a]) == x;
            if a < n {
                assert(key_of(s[a]) == x);
            }
        }
        if has_key(s, x) {
            let a = choose|a: int| 0 <= a < s.len() && key_of(s[a]) == x;
            assert(key_of(t[a]) == x);
        }
        if x == k {
            assert(key_of(t[n]) == x);
        }
    }
    assert forall|x: K| #[trigger] assoc_map(t).contains_key(x) implies assoc_map(t)[x] == assoc_map(
        s,
    ).insert(k, v)[x] by {
        let a = choose|a: int| 0 <= a < t.len() && key_of(t[a]) == x;
        lemma_assoc_at(t, a);
        if a < n {
            assert(t[a] == s[a]);
            assert(key_of(t[a]) != key_of(t[n]));
            lemma_assoc_at(s, a);
        }
    }
    assert(assoc_map(t) =~= assoc_map(s).insert(k, v));
}

/// Replacing the value of an existing entry updates the map at its key.
pub proof fn lemma_assoc_update<K, V>(s: Seq<(K, V)>, i: int, v: V)
    requires
        keys_distinct(s),
        0 <= i < s.len(),
    ensures
        keys_distinct(s.update(i, (s[i].0, v))),
        assoc_map(s.update(i, (s[i].0, v))) == assoc_map(s).insert(s[i].0, v),
{
    let k = s[i].0;
    let t = s.update(i, (k, v));
    assert forall|a: int, b: int|
        0 <= a < t.len() && 0 <= b < t.len() && a != b implies #[trigger] key_of(t[a]) != #[trigger] key_of(
        t[b],
    ) by {
        assert(key_of(t[a]) == key_of(s[a]));
        assert(key_of(t[b]) == key_of(s[b]));
    }
    assert forall|x: K| #[trigger] assoc_map(t).contains_key(x) <==> assoc_map(s).insert(
        k,
        v,
    ).contains_key(x) by {
        if has_key(t, x) {
            let a = choose|a: int| 0 <= a < t.len() && key_of(t[a]) == x;
            assert(key_of(s[a]) == x);
        }
        if has_key(s, x) {
            let a = choose|a: int| 0 <= a < s.len() && key_of(s[a]) == x;
            assert(key_of(t[a]) == x);
        }
        if x == k {
            assert(key_of(t[i]) == x);
        }
    }
    assert forall|x: K| #[trigger] assoc_map(t).contains_key(x) implies assoc_map(t)[x] == assoc_map(
        s,
    ).insert(k, v)[x] by {
        let a = choose|a: int| 0 <= a < t.len() && key_of(t[a]) == x;
        lemma_assoc_at(t, a);
        if a != i {
            assert(t[a] == s[a]);
            assert(key_of(s[a]) != key_of(s[i]));
            lemma_assoc_at(s, a);
        }
    }
    assert(assoc_map(t) =~= assoc_map(s).insert(k, v));
}

/// Removing an entry removes its key from the map.
pub proof fn lemma_assoc_remove<K, V>(s: Seq<(K, V)>, i: int)
    requires
        keys_distinct(s),
        0 <= i < s.len(),
    ensures
        keys_distinct(s.remove(i)),
        assoc_map(s.remove(i)) == assoc_map(s).remove(s[i].0),
{
    let k = s[i].0;
    let t = s.remove(i);
    assert forall|a: int, b: int|
        0 <= a < t.len() && 0 <= b < t.len() && a != b implies #[trigger] key_of(t[a]) != #[trigger] key_of(
        t[b],
    ) by {
        let a2 = if a < i { a } else { a + 1 };
        let b2 = if b < i { b } else { b + 1 };
        assert(t[a] == s[a2]);
        assert(t[b] == s[b2]);
        assert(key_of(s[a2]) != key_of(s[b2]));
    }
    assert forall|x: K| #[trigger] assoc_map(t).contains_key(x) <==> assoc_map(s).remove(
        k,
    ).contains_key(x) by {
        if has_key(t, x) {
            let a = choose|a: int| 0 <= a < t.len() && key_of(t[a]) == x;
            let a2 = if a < i { a } else { a + 1 };
            assert(t[a] == s[a2]);
            assert(key_of(s[a2]) == x);
            assert(key_of(s[a2]) != key_of(s[i]));
        }
        if has_key(s, x) && x != k {
            let a2 = choose|a: int| 0 <= a < s.len() && key_of(s[a]) == x;
            assert(a2 != i);
            let a = if a2 < i { a2 } else { a2 - 1 };
            assert(t[a] == s[a2]);
            assert(key_of(t[a]) == x);
        }
    }
    assert forall|x: K| #[trigger] assoc_map(t).contains_key(x) implies assoc_map(t)[x] == assoc_map(
        s,
    ).remove(k)[x] by {
        let a = choose|a: int| 0 <= a < t.len() && key_of(t[a]) == x;
        let a2 = if a < i { a } else { a + 1 };
        assert(t[a] == s[a2]);
        lemma_assoc_at(t, a);
        lemma_assoc_at(s, a2);
    }
    assert(assoc_map(t) =~= assoc_map(s).remove(k));
}

} // verus!

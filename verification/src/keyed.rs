//! Sequences of (key, value) entries read as finite maps, keyed by the
//! view of the key; the library keeps such sequences free of repeated keys.

use vstd::prelude::*;

verus! {

/// Whether some entry of `s` is filed under `key`.
pub open spec fn has_key<K: View, V>(s: Seq<(K, V)>, key: K::V) -> bool {
    exists|i: int| 0 <= i < s.len() && (#[trigger] s[i]).0@ == key
}

/// Whether no two entries of `s` are filed under the same key.
pub open spec fn keys_unique<K: View, V>(s: Seq<(K, V)>) -> bool {
    forall|i: int, j: int|
        0 <= i < s.len() && 0 <= j < s.len() && i != j ==> (#[trigger] s[i]).0@ != (#[trigger] s[j]).0@
}

/// The value filed under `key` in `s`.
pub open spec fn lookup<K: View, V>(s: Seq<(K, V)>, key: K::V) -> V {
    s[choose|i: int| 0 <= i < s.len() && (#[trigger] s[i]).0@ == key].1
}

/// The entries of `s` as a map from key view to value.
pub open spec fn entries_map<K: View, V>(s: Seq<(K, V)>) -> Map<K::V, V> {
    Map::new(|k: K::V| has_key(s, k), |k: K::V| lookup(s, k))
}

/// In a sequence with unique keys, the entry at `i` is the one found under its key.
pub proof fn lemma_lookup_at<K: View, V>(s: Seq<(K, V)>, i: int)
    requires
        keys_unique(s),
        0 <= i < s.len(),
    ensures
        has_key(s, s[i].0@),
        lookup(s, s[i].0@) == s[i].1,
        entries_map(s).dom().contains(s[i].0@),
        entries_map(s)[s[i].0@] == s[i].1,
{
    assert(has_key(s, s[i].0@));
}

/// Appending an entry under a new key adds it to the map.
pub proof fn lemma_entries_map_push<K: View, V>(s: Seq<(K, V)>, key: K, value: V)
    requires
        keys_unique(s),
        !has_key(s, key@),
    ensures
        keys_unique(s.push((key, value))),
        entries_map(s.push((key, value))) == entries_map(s).insert(key@, value),
{
    let t = s.push((key, value));
    assert forall|i: int, j: int|
        0 <= i < t.len() && 0 <= j < t.len() && i != j implies (#[trigger] t[i]).0@ != (#[trigger] t[j]).0@
    by {
        if i == s.len() {
            assert(t[j] == s[j]);
        } else if j == s.len() {
            assert(t[i] == s[i]);
        } else {
            assert(t[i] == s[i] && t[j] == s[j]);
        }
    }
    assert forall|k: K::V| #[trigger] has_key(t, k) <==> (has_key(s, k) || k == key@) by {
        if has_key(s, k) {
            let i = choose|i: int| 0 <= i < s.len() && (#[trigger] s[i]).0@ == k;
            assert(t[i] == s[i]);
        }
        if k == key@ {
            assert(t[s.len() as int].0@ == k);
        }
    }
    assert forall|k: K::V| has_key(t, k) implies #[trigger] lookup(t, k) == entries_map(s).insert(key@, value)[k] by {
        let i = choose|i: int| 0 <= i < t.len() && (#[trigger] t[i]).0@ == k;
        lemma_lookup_at(t, i);
        if i < s.len() {
            assert(t[i] == s[i]);
            lemma_lookup_at(s, i);
        }
    }
    assert(entries_map(t) =~= entries_map(s).insert(key@, value));
}

/// Replacing the entry at `i` with one under the same key updates the map.
pub proof fn lemma_entries_map_update<K: View, V>(s: Seq<(K, V)>, i: int, key: K, value: V)
    requires
        keys_unique(s),
        0 <= i < s.len(),
        s[i].0@ == key@,
    ensures
        keys_unique(s.update(i, (key, value))),
        entries_map(s.update(i, (key, value))) == entries_map(s).insert(key@, value),
{
    let t = s.update(i, (key, value));
    assert forall|a: int, b: int|
        0 <= a < t.len() && 0 <= b < t.len() && a != b implies (#[trigger] t[a]).0@ != (#[trigger] t[b]).0@
    by {
        assert(t[a].0@ == s[a].0@ && t[b].0@ == s[b].0@);
    }
    assert forall|k: K::V| #[trigger] has_key(t, k) <==> has_key(s, k) by {
        if has_key(s, k) {
            let a = choose|a: int| 0 <= a < s.len() && (#[trigger] s[a]).0@ == k;
            assert(t[a].0@ == k);
        }
        if has_key(t, k) {
            let a = choose|a: int| 0 <= a < t.len() && (#[trigger] t[a]).0@ == k;
            assert(s[a].0@ == k);
        }
    }
    assert(has_key(s, key@)) by {
        lemma_lookup_at(s, i);
    }
    assert forall|k: K::V| has_key(t, k) implies #[trigger] lookup(t, k) == entries_map(s).insert(key@, value)[k] by {
        let a = choose|a: int| 0 <= a < t.len() && (#[trigger] t[a]).0@ == k;
        lemma_lookup_at(t, a);
        if a != i {
            assert(t[a] == s[a]);
            lemma_lookup_at(s, a);
        }
    }
    assert(entries_map(t) =~= entries_map(s).insert(key@, value));
}

/// Removing the entry at `i` removes its key from the map.
pub proof fn lemma_entries_map_remove<K: View, V>(s: Seq<(K, V)>, i: int)
    requires
        keys_unique(s),
        0 <= i < s.len(),
    ensures
        keys_unique(s.remove(i)),
        entries_map(s.remove(i)) == entries_map(s).remove(s[i].0@),
{
    let t = s.remove(i);
    let gone = s[i].0@;
    assert forall|a: int| 0 <= a < t.len() implies #[trigger] t[a] == s[if a < i { a } else { a + 1 }] by {}
    assert forall|a: int, b: int|
        0 <= a < t.len() && 0 <= b < t.len() && a != b implies (#[trigger] t[a]).0@ != (#[trigger] t[b]).0@
    by {
        assert(t[a] == s[if a < i { a } else { a + 1 }]);
        assert(t[b] == s[if b < i { b } else { b + 1 }]);
    }
    assert forall|k: K::V| #[trigger] has_key(t, k) <==> (has_key(s, k) && k != gone) by {
        if has_key(t, k) {
            let a = choose|a: int| 0 <= a < t.len() && (#[trigger] t[a]).0@ == k;
            let b = if a < i { a } else { a + 1 };
            assert(t[a] == s[b]);
            assert(s[b].0@ == k);
        }
        if has_key(s, k) && k != gone {
            let b = choose|b: int| 0 <= b < s.len() && (#[trigger] s[b]).0@ == k;
            let a = if b < i { b } else { b - 1 };
            assert(t[a] == s[b]);
        }
    }
    assert forall|k: K::V| has_key(t, k) implies #[trigger] lookup(t, k) == entries_map(s).remove(gone)[k] by {
        let a = choose|a: int| 0 <= a < t.len() && (#[trigger] t[a]).0@ == k;
        let b = if a < i { a } else { a + 1 };
        assert(t[a] == s[b]);
        lemma_lookup_at(t, a);
        lemma_lookup_at(s, b);
    }
    assert(entries_map(t) =~= entries_map(s).remove(gone));
}

} // verus!

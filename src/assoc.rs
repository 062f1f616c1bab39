//! Association lists: sequences of key/value pairs read as maps.

use vstd::prelude::*;

verus! {

/// No key occurs twice.
pub open spec fn keys_unique<K, V>(s: Seq<(K, V)>) -> bool {
    forall|i: int, j: int| 0 <= i < s.len() && 0 <= j < s.len() && #[trigger] s[i].0 == #[trigger] s[j].0 ==> i == j
}

/// The map that a list of pairs stands for.
pub open spec fn assoc_map<K, V>(s: Seq<(K, V)>) -> Map<K, V> {
    Map::new(
        |k: K| exists|i: int| 0 <= i < s.len() && s[i].0 == k,
        |k: K| s[choose|i: int| 0 <= i < s.len() && s[i].0 == k].1,
    )
}

pub proof fn lemma_assoc_at<K, V>(s: Seq<(K, V)>, i: int)
    requires
        keys_unique(s),
        0 <= i < s.len(),
    ensures
        assoc_map(s).contains_key(s[i].0),
        assoc_map(s)[s[i].0] == s[i].1,
{
    let k = s[i].0;
    assert(exists|j: int| 0 <= j < s.len() && s[j].0 == k);
    let j = choose|j: int| 0 <= j < s.len() && s[j].0 == k;
    assert(s[j].0 == s[i].0);
}

pub proof fn lemma_assoc_absent<K, V>(s: Seq<(K, V)>, k: K)
    requires
        forall|i: int| 0 <= i < s.len() ==> s[i].0 != k,
    ensures
        !assoc_map(s).contains_key(k),
{
}

pub proof fn lemma_assoc_push<K, V>(s: Seq<(K, V)>, k: K, v: V)
    requires
        keys_unique(s),
        !assoc_map(s).contains_key(k),
    ensures
        keys_unique(s.push((k, v))),
        assoc_map(s.push((k, v))) == assoc_map(s).insert(k, v),
{
    let t = s.push((k, v));
    assert forall|i: int| 0 <= i < s.len() implies s[i].0 != k by {
        if s[i].0 == k {
            assert(assoc_map(s).contains_key(k));
        }
    }
    assert forall|i: int, j: int| 0 <= i < t.len() && 0 <= j < t.len() && #[trigger] t[i].0 == #[trigger] t[j].0 implies i == j by {
        if i < s.len() && j < s.len() {
            assert(s[i].0 == s[j].0);
        }
    }
    assert forall|key: K| #[trigger] assoc_map(t).contains_key(key) <==> assoc_map(s).insert(k, v).contains_key(key) by {
        if assoc_map(s).contains_key(key) {
            let i = choose|i: int| 0 <= i < s.len() && s[i].0 == key;
            assert(t[i].0 == key);
        }
        if key == k {
            assert(t[s.len() as int].0 == key);
        }
        if assoc_map(t).contains_key(key) && key != k {
            let i = choose|i: int| 0 <= i < t.len() && t[i].0 == key;
            assert(i < s.len());
            assert(s[i].0 == key);
        }
    }
    assert forall|key: K| #[trigger] assoc_map(t).contains_key(key) implies assoc_map(t)[key] == assoc_map(s).insert(k, v)[key] by {
        let i = choose|i: int| 0 <= i < t.len() && t[i].0 == key;
        if key == k {
            assert(t[s.len() as int].0 == key);
            assert(i == s.len());
        } else {
            assert(i < s.len());
            assert(s[i].0 == key);
            lemma_assoc_at(s, i);
        }
    }
    assert(assoc_map(t) =~= assoc_map(s).insert(k, v));
}

} // verus!

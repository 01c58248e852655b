//! Association lists as maps.
use vstd::prelude::*;

verus! {

/// The map that results from inserting pairs in order.
pub open spec fn assoc_map<K, V>(pairs: Seq<(K, V)>) -> Map<K, V>
    decreases pairs.len(),
{
    if pairs.len() == 0 {
        Map::empty()
    } else {
        assoc_map(pairs.drop_last()).insert(pairs.last().0, pairs.last().1)
    }
}

/// The map of pairs gives, for each key, the value of its last pair.
pub proof fn lemma_assoc_last<K, V>(s: Seq<(K, V)>, i: int)
    requires
        0 <= i < s.len(),
        forall|j: int| i < j < s.len() ==> (#[trigger] s[j]).0 != s[i].0,
    ensures
        assoc_map(s).contains_key(s[i].0),
        assoc_map(s)[s[i].0] == s[i].1,
    decreases s.len(),
{
    if i < s.len() - 1 {
        let rest = s.drop_last();
        assert(s[s.len() - 1].0 != s[i].0);
        assert forall|j: int| i < j < rest.len() implies (#[trigger] rest[j]).0 != rest[i].0 by {
            assert(rest[j] == s[j]);
        }
        lemma_assoc_last(rest, i);
    }
}

/// The map of pairs does not have a key that none of them has.
pub proof fn lemma_assoc_absent<K, V>(s: Seq<(K, V)>, key: K)
    requires
        forall|j: int| 0 <= j < s.len() ==> (#[trigger] s[j]).0 != key,
    ensures
        !assoc_map(s).contains_key(key),
    decreases s.len(),
{
    if s.len() > 0 {
        let rest = s.drop_last();
        assert(s[s.len() - 1].0 != key);
        assert forall|j: int| 0 <= j < rest.len() implies (#[trigger] rest[j]).0 != key by {
            assert(rest[j] == s[j]);
        }
        lemma_assoc_absent(rest, key);
    }
}

/// Writing a new value into the last pair of its key is an insertion.
pub proof fn lemma_assoc_update<K, V>(s: Seq<(K, V)>, i: int, value: V)
    requires
        0 <= i < s.len(),
        forall|j: int| i < j < s.len() ==> (#[trigger] s[j]).0 != s[i].0,
    ensures
        assoc_map(s.update(i, (s[i].0, value))) =~= assoc_map(s).insert(s[i].0, value),
    decreases s.len(),
{
    let changed = s.update(i, (s[i].0, value));
    if i == s.len() - 1 {
        assert(changed.drop_last() =~= s.drop_last());
    } else {
        let rest = s.drop_last();
        assert(s[s.len() - 1].0 != s[i].0);
        assert forall|j: int| i < j < rest.len() implies (#[trigger] rest[j]).0 != rest[i].0 by {
            assert(rest[j] == s[j]);
        }
        lemma_assoc_update(rest, i, value);
        assert(changed.drop_last() =~= rest.update(i, (rest[i].0, value)));
        assert(changed.last() == s.last());
    }
}

/// Each key of the map of pairs comes from one of them.
pub proof fn lemma_assoc_source<K, V>(s: Seq<(K, V)>, key: K)
    requires
        assoc_map(s).contains_key(key),
    ensures
        exists|i: int| 0 <= i < s.len() && (#[trigger] s[i]).0 == key,
{
    if forall|j: int| 0 <= j < s.len() ==> (#[trigger] s[j]).0 != key {
        lemma_assoc_absent(s, key);
    }
}

/// The map of pairs has the key of each of them.
pub proof fn lemma_assoc_present<K, V>(s: Seq<(K, V)>, i: int)
    requires
        0 <= i < s.len(),
    ensures
        assoc_map(s).contains_key(s[i].0),
    decreases s.len(),
{
    if i < s.len() - 1 {
        lemma_assoc_present(s.drop_last(), i);
    }
}

} // verus!

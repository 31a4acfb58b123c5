//! Association lists read as maps: the later entry of a key wins.

use vstd::prelude::*;

verus! {

/// The map that a list of key and value pairs stands for.
pub open spec fn assoc_map<K, V>(pairs: Seq<(K, V)>) -> Map<K, V>
    decreases pairs.len(),
{
    if pairs.len() == 0 {
        Map::empty()
    } else {
        assoc_map(pairs.drop_last()).insert(pairs.last().0, pairs.last().1)
    }
}

/// The keys of a list of pairs, in order.
pub open spec fn assoc_keys<K, V>(pairs: Seq<(K, V)>) -> Seq<K> {
    Seq::new(pairs.len(), |i: int| pairs[i].0)
}

/// A key is in the map exactly if some entry holds it, and the domain is
/// finite.
pub proof fn lemma_assoc_domain<K, V>(pairs: Seq<(K, V)>)
    ensures
        assoc_map(pairs).dom().finite(),
        forall|k: K| #[trigger]
            assoc_map(pairs).contains_key(k) <==> assoc_keys(pairs).contains(k),
    decreases pairs.len(),
{
    if pairs.len() > 0 {
        let front = pairs.drop_last();
        lemma_assoc_domain(front);
        assert forall|k: K| #[trigger]
            assoc_map(pairs).contains_key(k) <==> assoc_keys(pairs).contains(k) by {
            if assoc_keys(pairs).contains(k) {
                let i = choose|i: int| 0 <= i < pairs.len() && assoc_keys(pairs)[i] == k;
                if i < pairs.len() - 1 {
                    assert(assoc_keys(front)[i] == k);
                }
            }
            if assoc_map(pairs).contains_key(k) && k != pairs.last().0 {
                assert(assoc_keys(front).contains(k));
                let i = choose|i: int| 0 <= i < front.len() && assoc_keys(front)[i] == k;
                assert(assoc_keys(pairs)[i] == k);
            } else if k == pairs.last().0 {
                assert(assoc_keys(pairs)[pairs.len() - 1] == k);
            }
        }
    }
}

/// With distinct keys, each entry is what the map holds for its key, and the
/// map has as many keys as the list has entries.
pub proof fn lemma_assoc_distinct<K, V>(pairs: Seq<(K, V)>)
    requires
        assoc_keys(pairs).no_duplicates(),
    ensures
        assoc_map(pairs).dom().len() == pairs.len(),
        forall|i: int|
            0 <= i < pairs.len() ==> assoc_map(pairs).contains_key(#[trigger] pairs[i].0)
                && assoc_map(pairs)[pairs[i].0] == pairs[i].1,
    decreases pairs.len(),
{
    if pairs.len() > 0 {
        let front = pairs.drop_last();
        let n = pairs.len() - 1;
        assert forall|i: int, j: int| 0 <= i < j < front.len() implies assoc_keys(front)[i]
            != assoc_keys(front)[j] by {
            assert(assoc_keys(pairs)[i] != assoc_keys(pairs)[j]);
        }
        lemma_assoc_distinct(front);
        lemma_assoc_domain(front);
        if assoc_keys(front).contains(pairs.last().0) {
            let i = choose|i: int| 0 <= i < front.len() && assoc_keys(front)[i] == pairs.last().0;
            assert(assoc_keys(pairs)[i] == assoc_keys(pairs)[n]);
        }
        assert forall|i: int| 0 <= i < pairs.len() implies assoc_map(pairs).contains_key(
            #[trigger] pairs[i].0,
        ) && assoc_map(pairs)[pairs[i].0] == pairs[i].1 by {
            if i < n {
                assert(front[i] == pairs[i]);
                assert(assoc_keys(pairs)[i] != assoc_keys(pairs)[n]);
            }
        }
    }
}

/// Replacing the value of an entry is an insertion into the map, where no
/// later entry holds the same key.
pub proof fn lemma_assoc_update<K, V>(pairs: Seq<(K, V)>, i: int, v: V)
    requires
        0 <= i < pairs.len(),
        forall|j: int| i < j < pairs.len() ==> pairs[j].0 != pairs[i].0,
    ensures
        assoc_map(pairs.update(i, (pairs[i].0, v))) == assoc_map(pairs).insert(pairs[i].0, v),
    decreases pairs.len(),
{
    let k = pairs[i].0;
    let updated = pairs.update(i, (k, v));
    let n = pairs.len() - 1;
    if i == n {
        assert(updated.drop_last() =~= pairs.drop_last());
        assert(assoc_map(updated) =~= assoc_map(pairs).insert(k, v));
    } else {
        let front = pairs.drop_last();
        assert(front[i] == pairs[i]);
        assert forall|j: int| i < j < front.len() implies front[j].0 != front[i].0 by {
            assert(front[j] == pairs[j]);
        }
        lemma_assoc_update(front, i, v);
        assert(updated.drop_last() =~= front.update(i, (k, v)));
        assert(updated.last() == pairs.last());
        assert(pairs[n].0 != k);
        assert(assoc_map(updated) =~= assoc_map(pairs).insert(k, v));
    }
}

/// Appending an entry is an insertion into the map.
pub proof fn lemma_assoc_push<K, V>(pairs: Seq<(K, V)>, k: K, v: V)
    ensures
        assoc_map(pairs.push((k, v))) == assoc_map(pairs).insert(k, v),
{
    assert(pairs.push((k, v)).drop_last() =~= pairs);
}

/// A list of pairs after a value is put under a key: the value takes the
/// place of the first entry of the key, or comes last where the key has no
/// entry.
pub open spec fn assoc_put<K, V>(pairs: Seq<(K, V)>, k: K, v: V) -> Seq<(K, V)>
    decreases pairs.len(),
{
    if pairs.len() == 0 {
        seq![(k, v)]
    } else if pairs.first().0 == k {
        seq![(k, v)] + pairs.drop_first()
    } else {
        seq![pairs.first()] + assoc_put(pairs.drop_first(), k, v)
    }
}

/// Putting a value under a key that has its first entry at a position
/// replaces that entry.
pub proof fn lemma_assoc_put_at<K, V>(pairs: Seq<(K, V)>, i: int, k: K, v: V)
    requires
        0 <= i < pairs.len(),
        pairs[i].0 == k,
        forall|j: int| 0 <= j < i ==> pairs[j].0 != k,
    ensures
        assoc_put(pairs, k, v) == pairs.update(i, (k, v)),
    decreases pairs.len(),
{
    if i == 0 {
        assert(seq![(k, v)] + pairs.drop_first() =~= pairs.update(0, (k, v)));
    } else {
        let rest = pairs.drop_first();
        assert(pairs[0].0 != k);
        assert(rest[i - 1] == pairs[i]);
        assert forall|j: int| 0 <= j < i - 1 implies rest[j].0 != k by {
            assert(rest[j] == pairs[j + 1]);
        }
        lemma_assoc_put_at(rest, i - 1, k, v);
        assert(seq![pairs.first()] + rest.update(i - 1, (k, v)) =~= pairs.update(i, (k, v)));
    }
}

/// Putting a value under a key that has no entry appends an entry.
pub proof fn lemma_assoc_put_fresh<K, V>(pairs: Seq<(K, V)>, k: K, v: V)
    requires
        forall|j: int| 0 <= j < pairs.len() ==> pairs[j].0 != k,
    ensures
        assoc_put(pairs, k, v) == pairs.push((k, v)),
    decreases pairs.len(),
{
    if pairs.len() == 0 {
        assert(seq![(k, v)] =~= pairs.push((k, v)));
    } else {
        let rest = pairs.drop_first();
        assert(pairs[0].0 != k);
        assert forall|j: int| 0 <= j < rest.len() implies rest[j].0 != k by {
            assert(rest[j] == pairs[j + 1]);
        }
        lemma_assoc_put_fresh(rest, k, v);
        assert(seq![pairs.first()] + rest.push((k, v)) =~= pairs.push((k, v)));
    }
}

/// Distinct numbers from 0 up to a bound are no more than the bound.
pub proof fn lemma_distinct_in_range(numbers: Seq<int>, bound: int)
    requires
        0 <= bound,
        numbers.no_duplicates(),
        forall|i: int| 0 <= i < numbers.len() ==> 0 <= #[trigger] numbers[i] < bound,
    ensures
        numbers.len() <= bound,
{
    if numbers.len() > 0 {
        let range = vstd::set_lib::set_int_range(0, bound);
        numbers.unique_seq_to_set();
        vstd::set_lib::lemma_int_range(0, bound);
        assert forall|x: int| numbers.to_set().contains(x) implies range.contains(x) by {
            let i = choose|i: int| 0 <= i < numbers.len() && numbers[i] == x;
            assert(0 <= numbers[i] < bound);
        }
        vstd::set_lib::lemma_len_subset(numbers.to_set(), range);
    }
}

} // verus!

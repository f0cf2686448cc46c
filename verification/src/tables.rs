//! Lists of pairs, read as tables.

use vstd::prelude::*;

verus! {

/// The value of a key: that of the last pair with it.
pub open spec fn value_at<K, V>(pairs: Seq<(K, V)>, key: K) -> Option<V>
    decreases pairs.len(),
{
    if pairs.len() == 0 {
        None
    } else if pairs.last().0 == key {
        Some(pairs.last().1)
    } else {
        value_at(pairs.drop_last(), key)
    }
}

/// The pairs of all other keys.
pub open spec fn without<K, V>(pairs: Seq<(K, V)>, key: K) -> Seq<
    (K, V),
>
    decreases pairs.len(),
{
    if pairs.len() == 0 {
        pairs
    } else if pairs.last().0 == key {
        without(pairs.drop_last(), key)
    } else {
        without(pairs.drop_last(), key).push(pairs.last())
    }
}

/// A key is never among the pairs of the others.
pub proof fn lemma_without<K, V>(pairs: Seq<(K, V)>, key: K)
    ensures
        without(pairs, key).len() <= pairs.len(),
        value_at(without(pairs, key), key) is None,
        value_at(pairs, key) is None ==> without(pairs, key) == pairs,
        forall|other: K|
            other != key ==> #[trigger] value_at(without(pairs, key), other) == value_at(
                pairs,
                other,
            ),
    decreases pairs.len(),
{
    if pairs.len() > 0 {
        let rest = pairs.drop_last();
        lemma_without(rest, key);
        if pairs.last().0 != key {
            let kept = without(rest, key).push(pairs.last());
            assert(kept.drop_last() =~= without(rest, key));
            if value_at(pairs, key) is None {
                assert(kept =~= pairs);
            }
        }
        assert forall|other: K| other != key implies #[trigger] value_at(
            without(pairs, key),
            other,
        ) == value_at(pairs, other) by {
            assert(value_at(without(rest, key), other) == value_at(rest, other));
            if pairs.last().0 != key {
                let kept = without(rest, key).push(pairs.last());
                assert(kept.drop_last() =~= without(rest, key));
            }
        }
    }
}

/// The pairs of all other keys are among the pairs.
pub proof fn lemma_kept_pairs<K, V>(pairs: Seq<(K, V)>, key: K)
    ensures
        forall|index: int|
            0 <= index < without(pairs, key).len() ==> pairs.contains(
                #[trigger] without(pairs, key)[index],
            ),
    decreases pairs.len(),
{
    if pairs.len() > 0 {
        let rest = pairs.drop_last();
        lemma_kept_pairs(rest, key);
        let kept = without(pairs, key);
        assert forall|index: int| 0 <= index < kept.len() implies pairs.contains(
            #[trigger] kept[index],
        ) by {
            if index < without(rest, key).len() {
                assert(kept[index] == without(rest, key)[index]);
                assert(rest.contains(kept[index]));
                let place = choose|place: int|
                    0 <= place < rest.len() && rest[place] == kept[index];
                assert(pairs[place] == kept[index]);
            } else {
                assert(pairs[pairs.len() - 1] == kept[index]);
            }
        }
    }
}

/// The value of a key stands in one of the pairs.
pub proof fn lemma_value_has_place<K, V>(pairs: Seq<(K, V)>, key: K) -> (index: int)
    requires
        value_at(pairs, key) is Some,
    ensures
        0 <= index < pairs.len(),
        pairs[index] == (key, value_at(pairs, key)->Some_0),
    decreases pairs.len(),
{
    if pairs.last().0 == key {
        pairs.len() - 1
    } else {
        lemma_value_has_place(pairs.drop_last(), key)
    }
}

/// The key of every pair has a value.
pub proof fn lemma_place_has_value<K, V>(pairs: Seq<(K, V)>, index: int)
    requires
        0 <= index < pairs.len(),
    ensures
        value_at(pairs, pairs[index].0) is Some,
    decreases pairs.len(),
{
    if index < pairs.len() - 1 {
        lemma_place_has_value(pairs.drop_last(), index);
    }
}

/// Taking one of distinct keys away takes one pair away.
pub proof fn lemma_one_fewer<K, V>(pairs: Seq<(K, V)>, key: K)
    requires
        value_at(pairs, key) is Some,
        forall|first: int, second: int|
            0 <= first < second < pairs.len() ==> (#[trigger] pairs[first]).0 != (
            #[trigger] pairs[second]).0,
    ensures
        without(pairs, key).len() == pairs.len() - 1,
        forall|first: int, second: int|
            0 <= first < second < without(pairs, key).len() ==> (#[trigger] without(
                pairs,
                key,
            )[first]).0 != (#[trigger] without(pairs, key)[second]).0,
        forall|index: int|
            0 <= index < without(pairs, key).len() ==> pairs.contains(
                #[trigger] without(pairs, key)[index],
            ) && without(pairs, key)[index].0 != key,
    decreases pairs.len(),
{
    let rest = pairs.drop_last();
    if pairs.last().0 == key {
        assert(value_at(rest, key) is None) by {
            if value_at(rest, key) is Some {
                let index = lemma_value_has_place(rest, key);
                assert(pairs[index].0 != pairs[pairs.len() - 1].0);
            }
        }
        lemma_without(rest, key);
        assert forall|index: int| 0 <= index < without(pairs, key).len() implies pairs.contains(
            #[trigger] without(pairs, key)[index],
        ) && without(pairs, key)[index].0 != key by {
            assert(pairs[index] == without(pairs, key)[index]);
            assert(pairs[index].0 != pairs[pairs.len() - 1].0);
        }
    } else {
        lemma_one_fewer(rest, key);
        let kept = without(rest, key);
        let all = kept.push(pairs.last());
        assert(without(pairs, key) == all);
        assert forall|index: int| 0 <= index < all.len() implies pairs.contains(
            #[trigger] all[index],
        ) && all[index].0 != key by {
            if index < kept.len() {
                assert(all[index] == kept[index]);
                let at = choose|at: int| 0 <= at < rest.len() && rest[at] == kept[index];
                assert(pairs[at] == kept[index]);
            } else {
                assert(pairs[pairs.len() - 1] == all[index]);
            }
        }
        assert forall|first: int, second: int| 0 <= first < second < all.len() implies (
        #[trigger] all[first]).0 != (#[trigger] all[second]).0 by {
            if second == kept.len() {
                assert(all[first] == kept[first]);
                let at = choose|at: int| 0 <= at < rest.len() && rest[at] == kept[first];
                assert(pairs[at].0 != pairs[pairs.len() - 1].0);
            } else {
                assert(all[first] == kept[first]);
                assert(all[second] == kept[second]);
            }
        }
    }
}

} // verus!

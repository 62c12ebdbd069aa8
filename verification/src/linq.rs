//! Collecting items into a map.
use std::collections::HashMap;
use std::hash::Hash;
use vstd::prelude::*;
use vstd::std_specs::hash::obeys_key_model;

verus! {

/// The map built by inserting `pairs` one after the other: of pairs with the same key, the
/// later one stays.
pub open spec fn map_of_pairs<K, V>(pairs: Seq<(K, V)>) -> Map<K, V>
    decreases pairs.len(),
{
    if pairs.len() == 0 {
        Map::empty()
    } else {
        map_of_pairs(pairs.drop_last()).insert(pairs.last().0, pairs.last().1)
    }
}

/// Maps each item to a key and a value and collects the pairs into a map, in the order of the
/// items: of items with the same key, the value of the later one stays. (For key types whose
/// equality and hashing the map can rely on, such as the integers.)
pub fn to_hash_map<TSrcValue, TKey: Eq + Hash + Clone, TValue, F: Fn(TSrcValue) -> (TKey, TValue)>(
    items: Vec<TSrcValue>,
    get_key_value: F,
) -> (r: HashMap<TKey, TValue>)
    requires
        forall|i: int| 0 <= i < items.len() ==> get_key_value.requires((items[i],)),
    ensures
        obeys_key_model::<TKey>() ==> exists|pairs: Seq<(TKey, TValue)>|
            {
                &&& pairs.len() == items.len()
                &&& forall|i: int|
                    0 <= i < items.len() ==> get_key_value.ensures((items[i],), #[trigger] pairs[i])
                &&& r@ == map_of_pairs(pairs)
            },
{
    broadcast use vstd::std_specs::hash::group_hash_axioms;

    let mut result: HashMap<TKey, TValue> = HashMap::new();
    let ghost all = items@;
    let ghost mut pairs: Seq<(TKey, TValue)> = Seq::empty();
    let mut rest = items;
    while rest.len() > 0
        invariant
            rest@.len() <= all.len(),
            rest@ == all.subrange(all.len() - rest@.len(), all.len() as int),
            forall|i: int| 0 <= i < all.len() ==> get_key_value.requires((all[i],)),
            pairs.len() == all.len() - rest@.len(),
            forall|i: int| 0 <= i < pairs.len() ==> get_key_value.ensures((all[i],), #[trigger] pairs[i]),
            obeys_key_model::<TKey>() ==> result@ == map_of_pairs(pairs),
        decreases rest@.len(),
    {
        let ghost done = all.len() - rest@.len();
        let item = rest.remove(0);
        proof {
            assert(item == all[done]);
            assert(rest@ =~= all.subrange(all.len() - rest@.len(), all.len() as int));
        }
        let (key, value) = get_key_value(item);
        proof {
            let old_pairs = pairs;
            pairs = pairs.push((key, value));
            assert(pairs.drop_last() =~= old_pairs);
            assert forall|i: int| 0 <= i < pairs.len() implies get_key_value.ensures(
                (all[i],),
                #[trigger] pairs[i],
            ) by {
                if i < old_pairs.len() {
                    assert(pairs[i] == old_pairs[i]);
                }
            }
        }
        result.insert(key, value);
    }
    proof {
        assert(pairs.len() == all.len());
    }
    result
}

} // verus!

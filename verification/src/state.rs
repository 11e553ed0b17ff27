//! Snapshots of global state, the effects of a deploy, and what a snapshot
//! becomes under an effect.

use crate::key::{Key, Value};
use crate::key_map::{distinct_keys, lemma_map_of_domain, map_of, KeyMap};
use crate::transform::{StorageError, Transform};
use vstd::prelude::*;

verus! {

/// One immutable state of the whole store: the value under each key.
pub type Snapshot = KeyMap<Value>;

/// The pending changes that one run produced: at most one per key.
pub type Effect = KeyMap<Transform>;

/// What `map` holds under `key`, `None` where it holds nothing.
pub open spec fn lookup<V>(map: Map<Key, V>, key: Key) -> Option<V> {
    if map.contains_key(key) {
        Some(map[key])
    } else {
        None
    }
}

/// What `key` holds once `effect` has been applied to `snapshot`: the effect's
/// change for that key applied to its value, or the value as it was where the
/// effect has no change for it.
pub open spec fn value_after(
    snapshot: Map<Key, Value>,
    effect: Map<Key, Transform>,
    key: Key,
) -> Result<Option<Value>, StorageError> {
    if effect.contains_key(key) {
        effect[key].applied(key, lookup(snapshot, key))
    } else {
        Ok(lookup(snapshot, key))
    }
}

/// Every change of `effect` can be applied to `snapshot`.
pub open spec fn effect_applies(snapshot: Map<Key, Value>, effect: Map<Key, Transform>) -> bool {
    forall|key: Key| (#[trigger] value_after(snapshot, effect, key)) is Ok
}

/// The state that `snapshot` becomes under `effect`: every change of the
/// effect made, and nothing else touched.
pub open spec fn state_after(snapshot: Map<Key, Value>, effect: Map<Key, Transform>) -> Map<
    Key,
    Value,
> {
    Map::new(
        |key: Key| value_after(snapshot, effect, key) matches Ok(Some(_)),
        |key: Key| value_after(snapshot, effect, key)->Ok_0->Some_0,
    )
}

/// Applies `effect` to `snapshot`. The result is the state after the effect,
/// or the error of the first listed change that cannot be applied; the
/// snapshot itself is not touched.
pub fn apply_effect_to(snapshot: &Snapshot, effect: &Effect) -> (outcome: Result<
    Snapshot,
    StorageError,
>)
    ensures
        outcome is Ok <==> effect_applies(snapshot@, effect@),
        match outcome {
            Ok(next) => next@ == state_after(snapshot@, effect@),
            Err(error) => exists|i: int|
                0 <= i < effect.listed().len() && value_after(
                    snapshot@,
                    effect@,
                    #[trigger] effect.listed()[i].0,
                ) == Err::<Option<Value>, StorageError>(error) && forall|j: int|
                    0 <= j < i ==> value_after(snapshot@, effect@, #[trigger] effect.listed()[j].0)
                        is Ok,
        },
{
    let mut next = snapshot.clone();
    let count = effect.len();
    let ghost listed = effect.listed();
    let mut i: usize = 0;
    while i < count
        invariant
            i <= count,
            count == listed.len(),
            listed == effect.listed(),
            distinct_keys(listed),
            effect@ == map_of(listed),
            effect_applies(snapshot@, map_of(listed.subrange(0, i as int))),
            next@ == state_after(snapshot@, map_of(listed.subrange(0, i as int))),
            forall|j: int|
                0 <= j < i ==> value_after(snapshot@, effect@, #[trigger] listed[j].0) is Ok,
        decreases count - i,
    {
        let (key, transform) = effect.entry(i);
        let current = snapshot.get(&key);
        let ghost before = listed.subrange(0, i as int);
        let ghost after = listed.subrange(0, i + 1);
        proof {
            assert(after.drop_last() =~= before);
            assert(map_of(after) == map_of(before).insert(key, transform));
            crate::key_map::lemma_map_of_entry(listed, i as int);
            lemma_map_of_domain(before, key);
            assert(!map_of(before).contains_key(key)) by {
                if map_of(before).contains_key(key) {
                    let j = choose|j: int| 0 <= j < before.len() && before[j].0 == key;
                    assert(listed[j].0 == listed[i as int].0);
                }
            }
        }
        let made = match transform.apply(key, current) {
            Err(error) => {
                proof {
                    assert(!(value_after(snapshot@, effect@, listed[i as int].0) is Ok));
                }
                return Err(error);
            },
            Ok(made) => made,
        };
        match made {
            Some(value) => {
                next.insert(key, value);
            },
            None => {},
        }
        proof {
            assert forall|k: Key| #[trigger]
                value_after(snapshot@, map_of(after), k) is Ok by {
                assert(value_after(snapshot@, map_of(before), k) is Ok);
            }
            assert(next@ =~= state_after(snapshot@, map_of(after)));
        }
        i += 1;
    }
    proof {
        assert(listed.subrange(0, i as int) =~= listed);
    }
    Ok(next)
}

} // verus!

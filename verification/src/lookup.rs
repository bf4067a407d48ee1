//! First positions in sequences of keys.

use vstd::prelude::*;

verus! {

/// Whether `position` is the first place of `key` among `keys`.
pub open spec fn first_at<K>(keys: Seq<K>, key: K, position: int) -> bool {
    &&& 0 <= position < keys.len()
    &&& keys[position] == key
    &&& forall|j: int| 0 <= j < position ==> keys[j] != key
}

/// Whether `key` stands among `keys`.
pub open spec fn occurs<K>(keys: Seq<K>, key: K) -> bool {
    exists|i: int| 0 <= i < keys.len() && keys[i] == key
}

/// The first place of `key` among `keys`.
pub open spec fn position<K>(keys: Seq<K>, key: K) -> int {
    choose|i: int| first_at(keys, key, i)
}

/// A first place is the only first place.
pub proof fn lemma_position<K>(keys: Seq<K>, key: K, place: int)
    requires
        first_at(keys, key, place),
    ensures
        occurs(keys, key),
        position(keys, key) == place,
{
    let chosen = position(keys, key);
    assert(first_at(keys, key, chosen));
    if chosen < place {
        assert(keys[chosen] != key);
    } else if place < chosen {
        assert(keys[place] != key);
    }
}

} // verus!

//! Finding the first entry with a given key.

use vstd::prelude::*;

verus! {

/// `i` is the first place where `keys` holds `key`.
pub open spec fn is_first<K>(keys: Seq<K>, key: K, i: int) -> bool {
    &&& 0 <= i < keys.len()
    &&& keys[i] == key
    &&& forall|j: int| 0 <= j < i ==> #[trigger] keys[j] != key
}

/// The first place where `keys` holds `key`, if there is one.
pub open spec fn first_index<K>(keys: Seq<K>, key: K) -> Option<int> {
    keys.index_of_first(key)
}

/// The first place is unique, and it exists unless `key` is absent.
pub proof fn lemma_first_index<K>(keys: Seq<K>, key: K)
    ensures
        match first_index(keys, key) {
            Some(i) => is_first(keys, key, i),
            None => forall|j: int| 0 <= j < keys.len() ==> #[trigger] keys[j] != key,
        },
        forall|i: int| is_first(keys, key, i) ==> first_index(keys, key) == Some(i),
{
    keys.index_of_first_ensures(key);
    match first_index(keys, key) {
        Some(k) => {
            assert forall|i: int| is_first(keys, key, i) implies i == k by {
                assert(keys[i] == key && keys[k] == key);
            }
        },
        None => {
            assert forall|j: int| 0 <= j < keys.len() implies #[trigger] keys[j] != key by {
                assert(keys.contains(keys[j]));
            }
        },
    }
}

} // verus!

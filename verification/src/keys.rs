//! Finding a record by its key in a sequence of records.

use vstd::prelude::*;

verus! {

/// `i` is the first place in `keys` that holds `key`.
pub open spec fn first_at<K>(keys: Seq<K>, key: K, i: int) -> bool {
    &&& 0 <= i < keys.len()
    &&& keys[i] == key
    &&& forall|j: int| 0 <= j < i ==> keys[j] != key
}

/// The first place in `keys` that holds `key`, if any does.
pub open spec fn position<K>(keys: Seq<K>, key: K) -> Option<int> {
    if exists|i: int| first_at(keys, key, i) {
        Some(choose|i: int| first_at(keys, key, i))
    } else {
        None
    }
}

/// No key occurs twice.
pub open spec fn distinct<K>(keys: Seq<K>) -> bool {
    forall|i: int, j: int| 0 <= i < keys.len() && 0 <= j < keys.len() && i != j ==> keys[i] != keys[j]
}

pub(crate) proof fn lemma_position_found<K>(keys: Seq<K>, key: K, i: int)
    requires
        first_at(keys, key, i),
    ensures
        position(keys, key) == Some(i),
{
    let k = choose|k: int| first_at(keys, key, k);
    if k < i {
        assert(keys[k] != key);
    } else if i < k {
        assert(keys[i] != key);
    }
}

pub(crate) proof fn lemma_position_absent<K>(keys: Seq<K>, key: K)
    requires
        forall|j: int| 0 <= j < keys.len() ==> keys[j] != key,
    ensures
        position(keys, key) is None,
{
}

/// What `position` says of its result.
pub(crate) proof fn lemma_position<K>(keys: Seq<K>, key: K)
    ensures
        match position(keys, key) {
            Some(i) => first_at(keys, key, i),
            None => forall|j: int| 0 <= j < keys.len() ==> keys[j] != key,
        },
{
    if !exists|i: int| first_at(keys, key, i) {
        assert forall|j: int| 0 <= j < keys.len() implies keys[j] != key by {
            if keys[j] == key {
                lemma_first_exists(keys, key, j);
            }
        }
    }
}

proof fn lemma_first_exists<K>(keys: Seq<K>, key: K, j: int)
    requires
        0 <= j < keys.len(),
        keys[j] == key,
    ensures
        exists|i: int| first_at(keys, key, i),
    decreases j,
{
    if forall|k: int| 0 <= k < j ==> keys[k] != key {
        assert(first_at(keys, key, j));
    } else {
        let k = choose|k: int| 0 <= k < j && keys[k] == key;
        lemma_first_exists(keys, key, k);
    }
}

/// Among distinct keys, a key sits where `position` says and nowhere else.
pub(crate) proof fn lemma_position_distinct<K>(keys: Seq<K>, key: K, i: int)
    requires
        distinct(keys),
        0 <= i < keys.len(),
        keys[i] == key,
    ensures
        position(keys, key) == Some(i),
{
    assert(first_at(keys, key, i));
    lemma_position_found(keys, key, i);
}

/// Putting a key behind the others moves no key that was there, and the new
/// key is found at the end exactly when it was not there before.
pub(crate) proof fn lemma_position_push<K>(keys: Seq<K>, added: K, key: K)
    ensures
        position(keys.push(added), key) == match position(keys, key) {
            Some(i) => Some(i),
            None => if key == added {
                Some(keys.len() as int)
            } else {
                None
            },
        },
{
    lemma_position(keys, key);
    let after = keys.push(added);
    match position(keys, key) {
        Some(i) => {
            assert(first_at(after, key, i));
            lemma_position_found(after, key, i);
        },
        None => {
            if key == added {
                assert(first_at(after, key, keys.len() as int));
                lemma_position_found(after, key, keys.len() as int);
            } else {
                lemma_position_absent(after, key);
            }
        },
    }
}

} // verus!

//! Finding the first item of a list that goes by a given key.

use vstd::prelude::*;

verus! {

/// The index of the first of `keys`, at or after `from`, that equals `key`;
/// the length of `keys` where there is none.
pub open spec fn index_from(keys: Seq<int>, key: int, from: int) -> int
    decreases keys.len() - from,
{
    if from < 0 || from >= keys.len() {
        keys.len() as int
    } else if keys[from] == key {
        from
    } else {
        index_from(keys, key, from + 1)
    }
}

/// The index of the first of `keys` that equals `key`; the length of `keys`
/// where there is none.
pub open spec fn index_of(keys: Seq<int>, key: int) -> int {
    index_from(keys, key, 0)
}

/// `index_from` finds the key, and passes over other keys only.
pub proof fn lemma_index_from(keys: Seq<int>, key: int, from: int)
    requires
        0 <= from <= keys.len(),
    ensures
        from <= index_from(keys, key, from) <= keys.len(),
        index_from(keys, key, from) < keys.len() ==> keys[index_from(keys, key, from)] == key,
        forall|j: int| from <= j < index_from(keys, key, from) ==> keys[j] != key,
    decreases keys.len() - from,
{
    if from < keys.len() && keys[from] != key {
        lemma_index_from(keys, key, from + 1);
    }
}

/// An index is the one `index_of` gives if the key stands there and
/// nowhere before, or if it is the length and the key stands nowhere.
pub proof fn lemma_index_of_is(keys: Seq<int>, key: int, at: int)
    requires
        0 <= at <= keys.len(),
        at < keys.len() ==> keys[at] == key,
        forall|j: int| 0 <= j < at ==> keys[j] != key,
    ensures
        index_of(keys, key) == at,
{
    lemma_index_from(keys, key, 0);
}

} // verus!

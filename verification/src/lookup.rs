//! Finding a key in a column of keys, and telling whether keys are distinct.

use vstd::prelude::*;

verus! {

/// `at` is the first position of `key` in `keys`.
pub open spec fn is_first_index<K>(keys: Seq<K>, key: K, at: int) -> bool {
    &&& 0 <= at < keys.len()
    &&& keys[at] == key
    &&& forall|j: int| 0 <= j < at ==> keys[j] != key
}

/// The first position of `key` in `keys`, if it occurs there.
pub open spec fn first_index<K>(keys: Seq<K>, key: K) -> Option<int> {
    if exists|at: int| is_first_index(keys, key, at) {
        Some(choose|at: int| is_first_index(keys, key, at))
    } else {
        None
    }
}

/// A first position is the first position.
pub proof fn first_index_found<K>(keys: Seq<K>, key: K, at: int)
    requires
        is_first_index(keys, key, at),
    ensures
        first_index(keys, key) == Some(at),
{
    let chosen = choose|i: int| is_first_index(keys, key, i);
    assert(is_first_index(keys, key, chosen));
    if chosen < at {
        assert(keys[chosen] != key);
    } else if at < chosen {
        assert(keys[at] != key);
    }
}

/// A key that occurs nowhere has no first position.
pub proof fn first_index_absent<K>(keys: Seq<K>, key: K)
    requires
        forall|j: int| 0 <= j < keys.len() ==> keys[j] != key,
    ensures
        first_index(keys, key) is None,
        !keys.contains(key),
{
}

/// What a first position says of the column, and what its absence says.
pub proof fn first_index_holds<K>(keys: Seq<K>, key: K)
    ensures
        match first_index(keys, key) {
            Some(at) => is_first_index(keys, key, at),
            None => !keys.contains(key),
        },
        first_index(keys, key) is Some <==> keys.contains(key),
{
    if exists|at: int| is_first_index(keys, key, at) {
        let at = choose|at: int| is_first_index(keys, key, at);
        assert(keys[at] == key);
    } else {
        if keys.contains(key) {
            let some = choose|i: int| 0 <= i < keys.len() && keys[i] == key;
            first_occurrence_exists(keys, key, some);
        }
    }
}

/// A key that occurs at `some` has a first position at or before it.
pub proof fn first_occurrence_exists<K>(keys: Seq<K>, key: K, some: int)
    requires
        0 <= some < keys.len(),
        keys[some] == key,
    ensures
        exists|at: int| is_first_index(keys, key, at) && at <= some,
    decreases some,
{
    if exists|j: int| 0 <= j < some && keys[j] == key {
        let j = choose|j: int| 0 <= j < some && keys[j] == key;
        first_occurrence_exists(keys, key, j);
    } else {
        assert(is_first_index(keys, key, some));
    }
}

/// Appending a key moves no first position: a key that occurred keeps its
/// place, and the appended key is found at the end if it is new.
pub proof fn first_index_push<K>(keys: Seq<K>, added: K, key: K)
    ensures
        first_index(keys.push(added), key) == if keys.contains(key) {
            first_index(keys, key)
        } else if added == key {
            Some(keys.len() as int)
        } else {
            None
        },
{
    first_index_holds(keys, key);
    let longer = keys.push(added);
    match first_index(keys, key) {
        Some(at) => {
            assert(is_first_index(longer, key, at));
            first_index_found(longer, key, at);
        },
        None => {
            if added == key {
                assert(is_first_index(longer, key, keys.len() as int));
                first_index_found(longer, key, keys.len() as int);
            } else {
                assert forall|j: int| 0 <= j < longer.len() implies longer[j] != key by {
                    if j < keys.len() {
                        assert(keys.contains(keys[j]));
                    }
                }
                first_index_absent(longer, key);
            }
        },
    }
}

/// Appending a new key to distinct keys leaves them distinct.
pub proof fn distinct_push<K>(keys: Seq<K>, added: K)
    requires
        keys.no_duplicates(),
        !keys.contains(added),
    ensures
        keys.push(added).no_duplicates(),
{
    let longer = keys.push(added);
    assert forall|i: int, j: int| 0 <= i < longer.len() && 0 <= j < longer.len() && i != j implies longer[i]
        != longer[j] by {
        if i < keys.len() {
            assert(keys.contains(keys[i]));
        }
        if j < keys.len() {
            assert(keys.contains(keys[j]));
        }
    }
}

/// Whether no identifier occurs twice in `ids`.
pub fn all_distinct(ids: &Vec<u128>) -> (distinct: bool)
    ensures
        distinct == ids@.no_duplicates(),
{
    let mut i: usize = 0;
    while i < ids.len()
        invariant
            i <= ids.len(),
            ids@.take(i as int).no_duplicates(),
        decreases ids.len() - i,
    {
        let mut j: usize = 0;
        while j < i
            invariant
                j <= i < ids.len(),
                forall|k: int| 0 <= k < j ==> ids@[k] != ids@[i as int],
            decreases i - j,
        {
            if ids[j] == ids[i] {
                return false;
            }
            j = j + 1;
        }
        proof {
            let shorter = ids@.take(i as int);
            assert(!shorter.contains(ids@[i as int])) by {
                if shorter.contains(ids@[i as int]) {
                    let k = choose|k: int| 0 <= k < shorter.len() && shorter[k] == ids@[i as int];
                    assert(ids@[k] == shorter[k]);
                }
            }
            distinct_push(shorter, ids@[i as int]);
            assert(shorter.push(ids@[i as int]) == ids@.take(i + 1));
        }
        i = i + 1;
    }
    assert(ids@.take(ids.len() as int) == ids@);
    true
}

} // verus!

//! Lists of keyed entries in which a key stands for one entry: putting an
//! entry under a key that is there replaces the old entry in place, and a
//! new key goes to the end.

use vstd::prelude::*;

verus! {

/// The index of the first entry of `list` with the key `key`.
pub open spec fn entry_index<V>(list: Seq<(Seq<char>, V)>, key: Seq<char>) -> Option<int>
    decreases list.len(),
{
    if list.len() == 0 {
        None
    } else {
        match entry_index(list.drop_last(), key) {
            Some(i) => Some(i),
            None => if list.last().0 == key {
                Some(list.len() - 1)
            } else {
                None
            },
        }
    }
}

/// The value of the first entry of `list` with the key `key`.
pub open spec fn entry_value<V>(list: Seq<(Seq<char>, V)>, key: Seq<char>) -> Option<V> {
    match entry_index(list, key) {
        Some(i) => Some(list[i].1),
        None => None,
    }
}

/// The list with `value` under `key`: in place of the old value where the
/// key was there, at the end where it was not.
pub open spec fn with_entry<V>(list: Seq<(Seq<char>, V)>, key: Seq<char>, value: V) -> Seq<
    (Seq<char>, V),
> {
    match entry_index(list, key) {
        Some(i) => list.update(i, (key, value)),
        None => list.push((key, value)),
    }
}

/// No key occurs twice in `list`.
pub open spec fn keys_unique<V>(list: Seq<(Seq<char>, V)>) -> bool {
    forall|i: int, j: int| 0 <= i < j < list.len() ==> list[i].0 != list[j].0
}

/// The keys of `list`, in its order.
pub open spec fn keys_of<V>(list: Seq<(Seq<char>, V)>) -> Seq<Seq<char>> {
    list.map_values(|e: (Seq<char>, V)| e.0)
}

/// What `entry_index` finds: an index in range whose entry has the key,
/// with no such entry before it; or nothing, when no entry has the key.
pub proof fn lemma_entry_index<V>(list: Seq<(Seq<char>, V)>, key: Seq<char>)
    ensures
        match entry_index(list, key) {
            Some(i) => 0 <= i < list.len() && list[i].0 == key && forall|j: int|
                0 <= j < i ==> (#[trigger] list[j]).0 != key,
            None => forall|j: int| 0 <= j < list.len() ==> (#[trigger] list[j]).0 != key,
        },
    decreases list.len(),
{
    if list.len() > 0 {
        lemma_entry_index(list.drop_last(), key);
        assert forall|j: int| 0 <= j < list.len() - 1 implies list.drop_last()[j] == list[j] by {}
        match entry_index(list.drop_last(), key) {
            Some(i) => {
                assert(list.drop_last()[i] == list[i]);
            },
            None => {
                assert forall|j: int| 0 <= j < list.len() - 1 implies (#[trigger] list[j]).0
                    != key by {
                    assert(list.drop_last()[j] == list[j]);
                }
            },
        }
    }
}

/// Putting an entry into a list without repeated keys leaves such a list,
/// with the same keys in the same order and at most one more at the end.
pub proof fn lemma_with_entry<V>(list: Seq<(Seq<char>, V)>, key: Seq<char>, value: V)
    requires
        keys_unique(list),
    ensures
        keys_unique(with_entry(list, key, value)),
        entry_value(with_entry(list, key, value), key) == Some(value),
        entry_index(list, key) is Some ==> keys_of(with_entry(list, key, value)) == keys_of(list),
        entry_index(list, key) is None ==> keys_of(with_entry(list, key, value)) == keys_of(
            list,
        ).push(key),
{
    lemma_entry_index(list, key);
    let after = with_entry(list, key, value);
    lemma_entry_index(after, key);
    match entry_index(list, key) {
        Some(i) => {
            assert(after[i].0 == key);
            assert(keys_of(after) =~= keys_of(list));
            match entry_index(after, key) {
                Some(j) => {
                    if j < i {
                        assert(list[j].0 == after[j].0);
                    }
                },
                None => {},
            }
        },
        None => {
            assert(after[list.len() as int].0 == key);
            assert(keys_of(after) =~= keys_of(list).push(key));
            match entry_index(after, key) {
                Some(j) => {
                    if j < list.len() {
                        assert(list[j].0 == after[j].0);
                    }
                },
                None => {},
            }
        },
    }
}

} // verus!

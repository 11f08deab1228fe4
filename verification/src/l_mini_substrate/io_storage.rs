//! The backing store: a map from opaque byte keys to opaque byte values.
//!
//! A [`Storage`] is an ordinary value owned by whoever drives the runtime, so several
//! independent runtimes can live side by side.

use vstd::prelude::*;

verus! {

/// A raw storage key.
pub type Key = Vec<u8>;

/// A raw storage value.
pub type Value = Vec<u8>;

/// What a store holds, as a mathematical map.
pub type Cells = Map<Seq<u8>, Seq<u8>>;

/// A key-value store over bytes. No key is held twice.
///
/// The entries are kept in a vector and found by comparing keys byte for byte, so that
/// what the store holds rests on nothing but equality of byte strings.
pub struct Storage {
    entries: Vec<(Key, Value)>,
}

/// Whether some entry of `entries` is stored under `key`.
spec fn holds_key(entries: Seq<(Key, Value)>, key: Seq<u8>) -> bool {
    exists|i: int| 0 <= i < entries.len() && (#[trigger] entries[i]).0@ == key
}

/// The place of an entry stored under `key`.
spec fn place_of(entries: Seq<(Key, Value)>, key: Seq<u8>) -> int {
    choose|i: int| 0 <= i < entries.len() && (#[trigger] entries[i]).0@ == key
}

/// Whether the keys of `entries` are pairwise distinct.
spec fn distinct_keys(entries: Seq<(Key, Value)>) -> bool {
    forall|i: int, j: int|
        0 <= i < entries.len() && 0 <= j < entries.len() && i != j ==> (#[trigger] entries[i]).0@
            != (#[trigger] entries[j]).0@
}

/// The map that a sequence of entries stands for.
spec fn cells_of(entries: Seq<(Key, Value)>) -> Cells {
    Map::new(|key: Seq<u8>| holds_key(entries, key), |key: Seq<u8>| entries[place_of(entries, key)].1@)
}

impl View for Storage {
    type V = Cells;

    closed spec fn view(&self) -> Cells {
        cells_of(self.entries@)
    }
}

impl Storage {
    #[verifier::type_invariant]
    spec fn well_formed(self) -> bool {
        distinct_keys(self.entries@)
    }

    /// A store that holds nothing.
    pub fn new() -> (store: Storage)
        ensures
            store@ == Cells::empty(),
    {
        let store = Storage { entries: Vec::new() };
        assert(store@ =~= Cells::empty());
        store
    }

    /// Moves the entries out, leaving the store empty.
    fn take_entries(&mut self) -> (entries: Vec<(Key, Value)>)
        ensures
            entries@ == old(self).entries@,
            distinct_keys(entries@),
    {
        let mut held = Storage { entries: Vec::new() };
        core::mem::swap(self, &mut held);
        proof {
            use_type_invariant(&held);
        }
        held.entries
    }

    /// The place of the entry under `key`, if there is one.
    fn position(&self, key: &Key) -> (found: Option<usize>)
        ensures
            match found {
                Some(i) => i < self.entries@.len() && self.entries@[i as int].0@ == key@,
                None => !holds_key(self.entries@, key@),
            },
    {
        let mut i: usize = 0;
        while i < self.entries.len()
            invariant
                i <= self.entries@.len(),
                forall|j: int| 0 <= j < i ==> (#[trigger] self.entries@[j]).0@ != key@,
            decreases self.entries@.len() - i,
        {
            if same_bytes(&self.entries[i].0, key) {
                return Some(i);
            }
            i += 1;
        }
        None
    }
}

/// Whether two byte strings are equal.
pub fn same_bytes(a: &Vec<u8>, b: &Vec<u8>) -> (same: bool)
    ensures
        same == (a@ == b@),
{
    if a.len() != b.len() {
        return false;
    }
    let mut i: usize = 0;
    while i < a.len()
        invariant
            a@.len() == b@.len(),
            i <= a@.len(),
            forall|j: int| 0 <= j < i ==> a@[j] == b@[j],
        decreases a@.len() - i,
    {
        if a[i] != b[i] {
            return false;
        }
        i += 1;
    }
    assert(a@ =~= b@);
    true
}

/// A copy of a byte string.
pub fn copy_bytes(bytes: &Vec<u8>) -> (copy: Vec<u8>)
    ensures
        copy@ == bytes@,
{
    let mut copy: Vec<u8> = Vec::new();
    let mut i: usize = 0;
    while i < bytes.len()
        invariant
            i <= bytes@.len(),
            copy@ == bytes@.subrange(0, i as int),
        decreases bytes@.len() - i,
    {
        copy.push(bytes[i]);
        assert(copy@ =~= bytes@.subrange(0, i + 1));
        i += 1;
    }
    assert(copy@ =~= bytes@);
    copy
}

/// The value stored under `key`, if any.
pub fn get(store: &Storage, key: Key) -> (value: Option<Value>)
    ensures
        match value {
            Some(v) => store@.contains_key(key@) && store@[key@] == v@,
            None => !store@.contains_key(key@),
        },
{
    proof {
        use_type_invariant(store);
    }
    match store.position(&key) {
        Some(i) => {
            let value = copy_bytes(&store.entries[i].1);
            assert(store.entries@[place_of(store.entries@, key@)].0@ == key@);
            Some(value)
        },
        None => None,
    }
}

/// Stores `value` under `key`, in place of whatever was there.
pub fn set(store: &mut Storage, key: Key, value: Value)
    ensures
        final(store)@ == old(store)@.insert(key@, value@),
{
    proof {
        use_type_invariant(&*store);
    }
    let ghost before = store.entries@;
    let found = store.position(&key);
    let mut entries = store.take_entries();
    match found {
        Some(i) => {
            entries.set(i, (key, value));
            proof {
                let after = entries@;
                assert forall|k: Seq<u8>| holds_key(after, k) == (k == key@ || holds_key(
                    before,
                    k,
                )) by {
                    if holds_key(before, k) {
                        let j = place_of(before, k);
                        assert(after[j].0@ == k);
                    }
                    if k == key@ {
                        assert(after[i as int].0@ == k);
                    }
                    if holds_key(after, k) {
                        let j = place_of(after, k);
                        assert(before[j].0@ == k);
                    }
                }
                assert forall|k: Seq<u8>| holds_key(after, k) implies #[trigger] cells_of(after)[k]
                    == cells_of(before).insert(key@, value@)[k] by {
                    let j = place_of(after, k);
                    if k != key@ {
                        assert(before[j].0@ == k);
                        assert(place_of(before, k) == j);
                    }
                }
                assert(cells_of(after) =~= cells_of(before).insert(key@, value@));
            }
        },
        None => {
            entries.push((key, value));
            proof {
                let after = entries@;
                let last = before.len() as int;
                assert forall|k: Seq<u8>| holds_key(after, k) == (k == key@ || holds_key(
                    before,
                    k,
                )) by {
                    if holds_key(before, k) {
                        let j = place_of(before, k);
                        assert(after[j].0@ == k);
                    }
                    if k == key@ {
                        assert(after[last].0@ == k);
                    }
                    if holds_key(after, k) {
                        let j = place_of(after, k);
                        if j < last {
                            assert(before[j].0@ == k);
                        }
                    }
                }
                assert forall|k: Seq<u8>| holds_key(after, k) implies #[trigger] cells_of(after)[k]
                    == cells_of(before).insert(key@, value@)[k] by {
                    let j = place_of(after, k);
                    if k != key@ {
                        assert(before[j].0@ == k);
                        assert(place_of(before, k) == j);
                    }
                }
                assert(cells_of(after) =~= cells_of(before).insert(key@, value@));
            }
        },
    }
    *store = Storage { entries };
}

/// Removes whatever is stored under `key`.
pub fn clear(store: &mut Storage, key: Key)
    ensures
        final(store)@ == old(store)@.remove(key@),
{
    proof {
        use_type_invariant(&*store);
    }
    let ghost before = store.entries@;
    let found = store.position(&key);
    let mut entries = store.take_entries();
    match found {
        Some(i) => {
            entries.remove(i);
            proof {
                let after = entries@;
                assert forall|j: int| 0 <= j < after.len() implies #[trigger] after[j] == before[if j
                    < i {
                    j
                } else {
                    j + 1
                }] by {}
                assert forall|k: Seq<u8>| holds_key(after, k) == (k != key@ && holds_key(
                    before,
                    k,
                )) by {
                    if k != key@ && holds_key(before, k) {
                        let j = place_of(before, k);
                        if j < i {
                            assert(after[j].0@ == k);
                        } else {
                            assert(after[j - 1].0@ == k);
                        }
                    }
                    if holds_key(after, k) {
                        let j = place_of(after, k);
                        let b = if j < i {
                            j
                        } else {
                            j + 1
                        };
                        assert(before[b].0@ == k);
                    }
                }
                assert forall|k: Seq<u8>| holds_key(after, k) implies #[trigger] cells_of(after)[k]
                    == cells_of(before).remove(key@)[k] by {
                    let j = place_of(after, k);
                    let b = if j < i {
                        j
                    } else {
                        j + 1
                    };
                    assert(before[b].0@ == k);
                    assert(place_of(before, k) == b);
                }
                assert(cells_of(after) =~= cells_of(before).remove(key@));
            }
        },
        None => {
            assert(cells_of(before) =~= cells_of(before).remove(key@));
        },
    }
    *store = Storage { entries };
}

} // verus!

//! Lists of named entries: where the first entry of a name stands.

use vstd::prelude::*;

verus! {

/// The index of the first entry of `entries` named `key`; the length of
/// `entries` where none is.
pub open spec fn key_index<V>(entries: Seq<(Seq<char>, V)>, key: Seq<char>) -> int
    decreases entries.len(),
{
    if entries.len() == 0 || entries[0].0 == key {
        0
    } else {
        1 + key_index(entries.drop_first(), key)
    }
}

/// `i` is the index that `key_index` gives.
pub open spec fn is_key_index<V>(entries: Seq<(Seq<char>, V)>, key: Seq<char>, i: int) -> bool {
    &&& 0 <= i <= entries.len()
    &&& forall|j: int| 0 <= j < i ==> (#[trigger] entries[j]).0 != key
    &&& i < entries.len() ==> entries[i].0 == key
}

/// `key_index` is the one index that `is_key_index` admits.
pub proof fn lemma_key_index<V>(entries: Seq<(Seq<char>, V)>, key: Seq<char>, i: int)
    ensures
        is_key_index(entries, key, key_index(entries, key)),
        is_key_index(entries, key, i) ==> i == key_index(entries, key),
    decreases entries.len(),
{
    if entries.len() == 0 || entries[0].0 == key {
        if is_key_index(entries, key, i) && i > 0 {
            assert(entries[0].0 != key);
        }
    } else {
        let t = entries.drop_first();
        lemma_key_index(t, key, i - 1);
        let m = key_index(t, key);
        assert forall|j: int| 0 <= j < m + 1 implies (#[trigger] entries[j]).0 != key by {
            if j > 0 {
                assert(entries[j] == t[j - 1]);
            }
        }
        if m + 1 < entries.len() {
            assert(entries[m + 1] == t[m]);
        }
        if is_key_index(entries, key, i) {
            assert(i >= 1);
            assert forall|j: int| 0 <= j < i - 1 implies (#[trigger] t[j]).0 != key by {
                assert(t[j] == entries[j + 1]);
            }
            if i - 1 < t.len() {
                assert(t[i - 1] == entries[i]);
            }
            assert(is_key_index(t, key, i - 1));
        }
    }
}

} // verus!

//! The groups that slaves have been assigned to, in a map of fixed capacity.

use vstd::arithmetic::power2::is_pow2;
use vstd::prelude::*;

verus! {

/// The insertion ordered map of the `heapless` crate. Its default hasher belongs to a crate that
/// `heapless` does not hand out, so the map is declared with its parameters filled in.
#[verifier::external_body]
struct IndexMap<const N: usize> {
    map: heapless::FnvIndexMap<usize, usize, N>,
}

/// The number of entries that a map can be made for: a power of 2 greater than 1 for which the
/// positions of entries fit 16 bits with one value to spare.
pub open spec fn is_map_capacity(n: usize) -> bool {
    1 < n < 0x1_0000 && is_pow2(n as int)
}

/// No key occurs twice.
pub open spec fn distinct_keys(entries: Seq<(usize, usize)>) -> bool {
    forall|i: int, j: int|
        0 <= i < entries.len() && 0 <= j < entries.len() && i != j ==> (#[trigger] entries[i]).0 != (
        #[trigger] entries[j]).0
}

/// The entry at position `i` has the given key.
pub open spec fn has_key_at(entries: Seq<(usize, usize)>, key: usize, i: int) -> bool {
    0 <= i < entries.len() && entries[i].0 == key
}

/// Some entry has the given key.
pub open spec fn has_key(entries: Seq<(usize, usize)>, key: usize) -> bool {
    exists|i: int| has_key_at(entries, key, i)
}

/// The entries with a value set for a key: in the place of the key's entry if there is one, else in
/// a new entry at the end.
pub open spec fn with_entry(entries: Seq<(usize, usize)>, key: usize, value: usize) -> Seq<
    (usize, usize),
> {
    if has_key(entries, key) {
        entries.update(choose|i: int| has_key_at(entries, key, i), (key, value))
    } else {
        entries.push((key, value))
    }
}

/// At most `N` groups by their ids, with their positions in a list of groups.
///
/// The entries are held in a `heapless::FnvIndexMap`, which only the functions of this module
/// touch. The other field says what it holds, in the order of insertion.
pub struct GroupMap<const N: usize> {
    index: IndexMap<N>,
    entries: Ghost<Seq<(usize, usize)>>,
}

impl<const N: usize> View for GroupMap<N> {
    type V = Seq<(usize, usize)>;

    closed spec fn view(&self) -> Seq<(usize, usize)> {
        self.entries@
    }
}

impl<const N: usize> GroupMap<N> {
    /// No more than `N` entries are in the map, and no key occurs twice.
    pub open spec fn wf(self) -> bool {
        self@.len() <= N && distinct_keys(self@)
    }

    /// Calls `heapless::FnvIndexMap::new`, which makes an empty map. It does not compile for a
    /// capacity that is not a power of 2 greater than 1.
    #[verifier::external_body]
    pub(crate) fn new() -> (map: Self)
        requires
            is_map_capacity(N),
        ensures
            map@ == Seq::<(usize, usize)>::empty(),
            map.wf(),
    {
        GroupMap {
            index: IndexMap { map: heapless::FnvIndexMap::new() },
            entries: Ghost(Seq::empty()),
        }
    }

    /// Calls `heapless::FnvIndexMap::insert`. It sets the value of a key that is in the map, keeping
    /// its place in the order, and hands back the old value. A key that is not in the map is
    /// inserted at the end if fewer than `N` are in the map, and is handed back with its value
    /// otherwise.
    #[verifier::external_body]
    pub(crate) fn insert(&mut self, key: usize, value: usize) -> (inserted: Result<
        Option<usize>,
        (usize, usize),
    >)
        requires
            is_map_capacity(N),
            old(self).wf(),
        ensures
            final(self).wf(),
            inserted is Ok <==> has_key(old(self)@, key) || old(self)@.len() < N,
            inserted is Ok ==> final(self)@ == with_entry(old(self)@, key, value),
            inserted matches Ok(Some(v)) ==> exists|i: int| #[trigger]
                has_key_at(old(self)@, key, i) && old(self)@[i].1 == v,
            inserted matches Ok(None) ==> !has_key(old(self)@, key),
            inserted matches Err(e) ==> e == (key, value) && final(self)@ == old(self)@,
    {
        self.index.map.insert(key, value)
    }

    /// Calls `heapless::FnvIndexMap::into_iter`, which hands out the entries from the last to the
    /// first, as each step takes the last one from the list of entries.
    #[verifier::external_body]
    pub(crate) fn into_entries(self) -> (entries: Vec<(usize, usize)>)
        requires
            self.wf(),
        ensures
            entries@ == self@.reverse(),
    {
        self.index.map.into_iter().collect()
    }
}

} // verus!

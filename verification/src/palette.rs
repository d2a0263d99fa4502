use vstd::prelude::*;
use crate::blocks::Blocks;

verus! {

/// A bidirectional mapping between block states and small integer indices:
/// an ordered sequence of distinct states, each occupying a stable index
/// until an entry is removed.
///
/// Removal uses a swap-with-last strategy so that the backing storage stays
/// gap-free: the entry at the final position moves into the freed slot, and
/// the old final index is handed back so the owner can rewrite every cell
/// that referenced it.
#[derive(Clone, Debug)]
pub struct Palette {
    entries: Vec<Blocks>,
}

impl View for Palette {
    type V = Seq<Blocks>;

    closed spec fn view(&self) -> Seq<Blocks> {
        self.entries@
    }
}

impl Palette {
    /// Creates a palette holding exactly the given entries, in order.
    pub fn new(entries: Vec<Blocks>) -> (r: Self)
        ensures
            r@ == entries@,
    {
        Palette { entries }
    }

    /// Number of entries currently held.
    pub fn len(&self) -> (r: usize)
        ensures
            r == self@.len(),
    {
        self.entries.len()
    }

    /// Looks the value up without mutating; returns the index of its first
    /// occurrence, or `None` when the value is absent.
    pub fn get_index(&self, value: &Blocks) -> (r: Option<usize>)
        ensures
            match r {
                Some(i) => i < self@.len() && self@[i as int] == *value
                    && forall|j: int| 0 <= j < i ==> self@[j] != *value,
                None => !self@.contains(*value),
            },
    {
        let mut i: usize = 0;
        while i < self.entries.len()
            invariant
                i <= self@.len(),
                forall|j: int| 0 <= j < i ==> self@[j] != *value,
            decreases self@.len() - i,
        {
            if self.entries[i] == *value {
                return Some(i);
            }
            i += 1;
        }
        assert(!self@.contains(*value)) by {
            assert(forall|j: int| 0 <= j < self@.len() ==> self@[j] != *value);
        }
        None
    }

    /// Appends a new value and returns its index. The caller is responsible
    /// for having checked absence first: no de-duplication happens here.
    pub fn push(&mut self, value: Blocks) -> (r: usize)
        requires
            old(self)@.len() < usize::MAX,
        ensures
            final(self)@ == old(self)@.push(value),
            r == old(self)@.len(),
    {
        let r = self.entries.len();
        self.entries.push(value);
        r
    }

    /// Removes the entry at `index` by moving the final entry into its slot,
    /// and returns the old final index, so that the caller can rewrite every
    /// cell that referenced that former last index to `index`.
    pub fn remove(&mut self, index: usize) -> (r: usize)
        requires
            index < old(self)@.len(),
        ensures
            r == old(self)@.len() - 1,
            final(self)@ == old(self)@.update(index as int, old(self)@.last()).drop_last(),
            final(self)@.len() == old(self)@.len() - 1,
    {
        let r = self.entries.len() - 1;
        let _ = self.entries.swap_remove(index);
        r
    }

    /// Bounds-checked read of the entry at `index`.
    pub fn at(&self, index: usize) -> (r: Option<&Blocks>)
        ensures
            match r {
                Some(v) => index < self@.len() && *v == self@[index as int],
                None => index >= self@.len(),
            },
    {
        if index < self.entries.len() {
            Some(&self.entries[index])
        } else {
            None
        }
    }

    /// Read-only access to the ordered entries, for serialization.
    pub fn get_entries(&self) -> (r: &Vec<Blocks>)
        ensures
            r@ == self@,
    {
        &self.entries
    }
}

} // verus!

//! Page tables: `ENTRY_COUNT` entries each.

use vstd::prelude::*;

use crate::paging::entry::Entry;
use crate::paging::ENTRY_COUNT;

pub mod bits32;
pub mod bits64;

pub use self::bits64::{Level3, Level4};

verus! {

/// The levels of the page table hierarchy.
pub trait TableLevel {

}

/// A level whose entries point to tables of the next lower level.
pub trait HierarchicalLevel: TableLevel {
    type NextLevel: TableLevel;
}

pub struct Level2;

pub struct Level1;

impl TableLevel for Level2 {

}

impl TableLevel for Level1 {

}

impl HierarchicalLevel for Level2 {
    type NextLevel = Level1;
}

/// One page table.
pub struct Table {
    pub(crate) entries: Vec<Entry>,
}

impl Table {
    /// The raw values of the entries, in order.
    pub closed spec fn view(&self) -> Seq<u64> {
        Seq::new(self.entries@.len(), |i: int| self.entries@[i]@)
    }

    pub open spec fn wf(&self) -> bool {
        self@.len() == ENTRY_COUNT
    }

    /// A table whose entries are all unused.
    pub fn new() -> (r: Table)
        ensures
            r.wf(),
            forall|i: int| 0 <= i < ENTRY_COUNT ==> #[trigger] r@[i] == 0,
    {
        let mut entries: Vec<Entry> = Vec::new();
        let mut i: u64 = 0;
        while i < ENTRY_COUNT
            invariant
                i <= ENTRY_COUNT,
                entries@.len() == i,
                forall|j: int| 0 <= j < i ==> #[trigger] entries@[j]@ == 0,
            decreases ENTRY_COUNT - i,
        {
            entries.push(Entry::unused());
            i = i + 1;
        }
        Table { entries }
    }

    /// Marks every entry unused.
    pub fn zero(&mut self)
        ensures
            final(self)@.len() == old(self)@.len(),
            forall|i: int| 0 <= i < final(self)@.len() ==> #[trigger] final(self)@[i] == 0,
    {
        let n = self.entries.len();
        let mut i: usize = 0;
        while i < n
            invariant
                n == self.entries@.len(),
                n == old(self).entries@.len(),
                i <= n,
                forall|j: int| 0 <= j < i ==> #[trigger] self.entries@[j]@ == 0,
            decreases n - i,
        {
            self.entries[i].set_unused();
            i = i + 1;
        }
    }

    /// The entry at `index`.
    pub fn index(&self, index: usize) -> (r: &Entry)
        requires
            index < self@.len(),
        ensures
            r@ == self@[index as int],
    {
        &self.entries[index]
    }

    /// Overwrites the entry at `index`.
    pub fn set_entry(&mut self, index: usize, entry: Entry)
        requires
            index < old(self)@.len(),
        ensures
            final(self)@ == old(self)@.update(index as int, entry@),
    {
        self.entries[index] = entry;
        assert(self@ =~= old(self)@.update(index as int, entry@));
    }
}

} // verus!

//! The frames of physical memory that hold page tables.
//!
//! Each table frame carries the level (4 down to 1) of the hierarchy it serves at. A frame
//! that holds no table reads as a table of unused entries.

use vstd::prelude::*;

use crate::paging::entry::{frame_of, is_huge, is_present, Entry};
use crate::paging::table::Table;
use crate::paging::{ENTRY_COUNT, MAX_FRAME_NUMBER};

verus! {

/// Page tables stored in physical frames, each with its level.
pub struct PhysicalMemory {
    frames: Vec<u64>,
    levels: Vec<u8>,
    tables: Vec<Table>,
    slots: Ghost<Map<u64, int>>,
}

/// Every entry that was present in `old` is still there, unchanged, in `new`.
pub open spec fn keeps_present_entries(old: &PhysicalMemory, new: &PhysicalMemory) -> bool {
    forall|f: u64, j: int|
        old.holds_table(f) && 0 <= j < ENTRY_COUNT && #[trigger] is_present(old.entry_at(f, j))
            ==> new.holds_table(f) && new.entry_at(f, j) == old.entry_at(f, j)
}

/// `new` is `old` with the entry at `(f, i)` replaced by `value`.
pub open spec fn one_entry_written(
    old: &PhysicalMemory,
    new: &PhysicalMemory,
    f: u64,
    i: int,
    value: u64,
) -> bool {
    &&& forall|g: u64| #[trigger] new.holds_table(g) == old.holds_table(g)
    &&& forall|g: u64| old.holds_table(g) ==> #[trigger] new.level_of(g) == old.level_of(g)
    &&& forall|g: u64, j: int|
        0 <= j < ENTRY_COUNT && (g, j) != (f, i) ==> #[trigger] new.entry_at(g, j) == old.entry_at(
            g,
            j,
        )
    &&& new.entry_at(f, i) == value
}

/// Keeping present entries composes.
pub proof fn lemma_keeps_present_transitive(a: &PhysicalMemory, b: &PhysicalMemory, c: &PhysicalMemory)
    requires
        keeps_present_entries(a, b),
        keeps_present_entries(b, c),
    ensures
        keeps_present_entries(a, c),
{
    assert forall|f: u64, j: int|
        a.holds_table(f) && 0 <= j < ENTRY_COUNT && #[trigger] is_present(a.entry_at(f, j)) implies c.holds_table(f)
        && c.entry_at(f, j) == a.entry_at(f, j) by {
        assert(is_present(b.entry_at(f, j)));
    }
}

/// Writing over an entry that is not present keeps every present entry.
pub proof fn lemma_write_keeps_present(
    old: &PhysicalMemory,
    new: &PhysicalMemory,
    f: u64,
    i: int,
    value: u64,
)
    requires
        one_entry_written(old, new, f, i, value),
        !is_present(old.entry_at(f, i)),
    ensures
        keeps_present_entries(old, new),
{
}

impl PhysicalMemory {
    /// Whether frame `f` holds a page table.
    pub closed spec fn holds_table(&self, f: u64) -> bool {
        self.slots@.contains_key(f)
    }

    /// The level of the table held in frame `f`.
    pub closed spec fn level_of(&self, f: u64) -> int {
        self.levels@[self.slots@[f]] as int
    }

    /// The raw value of entry `i` of frame `f`; zero where `f` holds no table.
    pub closed spec fn entry_at(&self, f: u64, i: int) -> u64 {
        if self.slots@.contains_key(f) {
            self.tables@[self.slots@[f]]@[i]
        } else {
            0
        }
    }

    pub closed spec fn representation_ok(&self) -> bool {
        &&& self.frames@.len() == self.levels@.len()
        &&& self.frames@.len() == self.tables@.len()
        &&& forall|f: u64| #[trigger]
            self.slots@.contains_key(f) ==> 0 <= self.slots@[f] < self.frames@.len()
                && self.frames@[self.slots@[f]] == f
        &&& forall|k: int|
            0 <= k < self.frames@.len() ==> self.slots@.contains_key(#[trigger] self.frames@[k])
                && self.slots@[self.frames@[k]] == k
        &&& forall|k: int|
            0 <= k < self.tables@.len() ==> (#[trigger] self.tables@[k]).wf() && 1 <= self.levels@[k]
                <= 4
    }

    /// Entries of tables above level 1 that point to a next table point to a table held
    /// one level lower.
    pub open spec fn levels_consistent(&self) -> bool {
        forall|f: u64, i: int|
            #![trigger self.entry_at(f, i)]
            self.holds_table(f) && self.level_of(f) >= 2 && 0 <= i < ENTRY_COUNT && is_present(
                self.entry_at(f, i),
            ) && !is_huge(self.entry_at(f, i)) ==> self.holds_table(frame_of(self.entry_at(f, i)))
                && self.level_of(frame_of(self.entry_at(f, i))) == self.level_of(f) - 1
    }

    /// Whether entry `i` of frame `f` points to a next table: the table is above level 1
    /// and the entry is present and not huge.
    pub open spec fn points_to_table(&self, f: u64, i: int) -> bool {
        &&& self.holds_table(f)
        &&& self.level_of(f) >= 2
        &&& 0 <= i < ENTRY_COUNT
        &&& is_present(self.entry_at(f, i))
        &&& !is_huge(self.entry_at(f, i))
    }

    /// No two entries point to the same next table.
    pub open spec fn references_unique(&self) -> bool {
        forall|f1: u64, i1: int, f2: u64, i2: int|
            #![trigger self.entry_at(f1, i1), self.entry_at(f2, i2)]
            self.points_to_table(f1, i1) && self.points_to_table(f2, i2) && frame_of(
                self.entry_at(f1, i1),
            ) == frame_of(self.entry_at(f2, i2)) ==> f1 == f2 && i1 == i2
    }

    pub open spec fn wf(&self) -> bool {
        &&& self.representation_ok()
        &&& self.levels_consistent()
        &&& self.references_unique()
        &&& forall|f: u64| #[trigger] self.holds_table(f) ==> 1 <= self.level_of(f) <= 4
        &&& forall|f: u64| #[trigger] self.holds_table(f) ==> f < MAX_FRAME_NUMBER
    }

    /// A frame that holds no table reads as unused entries.
    pub proof fn lemma_unheld_frame(&self)
        ensures
            forall|f: u64, i: int| !self.holds_table(f) ==> #[trigger] self.entry_at(f, i) == 0,
    {
    }

    proof fn lemma_levels_bounded(&self)
        requires
            self.representation_ok(),
        ensures
            forall|f: u64| #[trigger] self.holds_table(f) ==> 1 <= self.level_of(f) <= 4,
    {
        assert forall|f: u64| #[trigger] self.holds_table(f) implies 1 <= self.level_of(f) <= 4 by {
            let k = self.slots@[f];
            assert(self.tables@[k].wf());
        }
    }

    /// Memory that holds no page table.
    pub fn new() -> (r: PhysicalMemory)
        ensures
            r.wf(),
            forall|f: u64| !#[trigger] r.holds_table(f),
    {
        PhysicalMemory {
            frames: Vec::new(),
            levels: Vec::new(),
            tables: Vec::new(),
            slots: Ghost(Map::empty()),
        }
    }

    fn find(&self, f: u64) -> (r: Option<usize>)
        requires
            self.representation_ok(),
        ensures
            match r {
                Some(k) => self.holds_table(f) && self.slots@[f] == k && k < self.frames@.len(),
                None => !self.holds_table(f),
            },
    {
        let mut k: usize = 0;
        while k < self.frames.len()
            invariant
                self.representation_ok(),
                k <= self.frames@.len(),
                forall|j: int| 0 <= j < k ==> self.frames@[j] != f,
            decreases self.frames@.len() - k,
        {
            if self.frames[k] == f {
                return Some(k);
            }
            k = k + 1;
        }
        proof {
            if self.slots@.contains_key(f) {
                assert(self.frames@[self.slots@[f]] == f);
            }
        }
        None
    }

    /// Whether frame `f` holds a page table.
    pub fn has_table(&self, f: u64) -> (r: bool)
        requires
            self.wf(),
        ensures
            r == self.holds_table(f),
    {
        self.find(f).is_some()
    }

    /// The level of the table held in frame `f`.
    pub fn table_level(&self, f: u64) -> (r: u8)
        requires
            self.wf(),
            self.holds_table(f),
        ensures
            r == self.level_of(f),
            1 <= r <= 4,
    {
        let k = self.find(f).unwrap();
        proof {
            assert(self.tables@[k as int].wf());
        }
        self.levels[k]
    }

    /// Entry `i` of the table in frame `f`; unused where `f` holds no table.
    pub fn read_entry(&self, f: u64, i: usize) -> (r: Entry)
        requires
            self.wf(),
            i < ENTRY_COUNT,
        ensures
            r@ == self.entry_at(f, i as int),
    {
        match self.find(f) {
            Some(k) => {
                proof {
                    assert(self.tables@[k as int].wf());
                }
                Entry::from_bits(self.tables[k].index(i).bits())
            },
            None => Entry::unused(),
        }
    }

    /// The frames that hold tables.
    pub fn table_frames(&self) -> (r: Vec<u64>)
        requires
            self.wf(),
        ensures
            forall|k: int| 0 <= k < r@.len() ==> self.holds_table(#[trigger] r@[k]),
            forall|f: u64| #[trigger] self.holds_table(f) ==> r@.contains(f),
    {
        let mut r: Vec<u64> = Vec::new();
        let mut k: usize = 0;
        while k < self.frames.len()
            invariant
                self.wf(),
                k <= self.frames@.len(),
                r@ == self.frames@.subrange(0, k as int),
            decreases self.frames@.len() - k,
        {
            r.push(self.frames[k]);
            k = k + 1;
        }
        proof {
            assert(r@ =~= self.frames@);
            assert forall|f: u64| #[trigger] self.holds_table(f) implies r@.contains(f) by {
                assert(r@[self.slots@[f]] == f);
            }
        }
        r
    }

    /// A copy of the table in frame `f`; a table of unused entries where `f` holds none.
    pub fn table(&self, f: u64) -> (r: Table)
        requires
            self.wf(),
        ensures
            r.wf(),
            forall|i: int| 0 <= i < ENTRY_COUNT ==> #[trigger] r@[i] == self.entry_at(f, i),
    {
        let mut t = Table::new();
        let mut i: usize = 0;
        while i < 512
            invariant
                self.wf(),
                t.wf(),
                i <= 512,
                forall|j: int| 0 <= j < i ==> #[trigger] t@[j] == self.entry_at(f, j),
                forall|j: int| i <= j < 512 ==> #[trigger] t@[j] == 0,
            decreases 512 - i,
        {
            let e = self.read_entry(f, i);
            t.set_entry(i, e);
            i = i + 1;
        }
        t
    }

    /// Stores a table of unused entries at level `level` in frame `f`.
    pub fn add_table(&mut self, f: u64, level: u8)
        requires
            old(self).wf(),
            !old(self).holds_table(f),
            f < MAX_FRAME_NUMBER,
            1 <= level <= 4,
        ensures
            final(self).wf(),
            final(self).holds_table(f),
            final(self).level_of(f) == level,
            forall|g: u64| g != f ==> #[trigger] final(self).holds_table(g) == old(self).holds_table(g),
            forall|g: u64| old(self).holds_table(g) ==> #[trigger] final(self).level_of(g) == old(self).level_of(g),
            forall|g: u64, j: int|
                0 <= j < ENTRY_COUNT ==> #[trigger] final(self).entry_at(g, j) == old(self).entry_at(
                    g,
                    j,
                ),
            keeps_present_entries(old(self), final(self)),
    {
        let ghost n = self.frames@.len() as int;
        let t = Table::new();
        self.frames.push(f);
        self.levels.push(level);
        self.tables.push(t);
        proof {
            self.slots@ = self.slots@.insert(f, n);
            assert forall|g: u64, j: int| 0 <= j < ENTRY_COUNT implies #[trigger] self.entry_at(g, j)
                == old(self).entry_at(g, j) by {
                if g == f {
                    assert(self.tables@[n]@[j] == 0);
                }
            }
            assert(self.representation_ok());
            self.lemma_levels_bounded();
            assert forall|g: u64| old(self).holds_table(g) implies #[trigger] self.level_of(g)
                == old(self).level_of(g) by {
                assert(self.slots@[g] == old(self).slots@[g]);
            }
            assert forall|g: u64, j: int|
                #![trigger self.entry_at(g, j)]
                self.holds_table(g) && self.level_of(g) >= 2 && 0 <= j < ENTRY_COUNT && is_present(
                    self.entry_at(g, j),
                ) && !is_huge(self.entry_at(g, j)) implies self.holds_table(
                frame_of(self.entry_at(g, j)),
            ) && self.level_of(frame_of(self.entry_at(g, j))) == self.level_of(g) - 1 by {
                if g == f {
                    assert(self.entry_at(g, j) == 0);
                    assert(!is_present(0u64)) by (bit_vector);
                } else {
                    assert(old(self).entry_at(g, j) == self.entry_at(g, j));
                }
            }
            assert forall|f1: u64, i1: int, f2: u64, i2: int|
                #![trigger self.entry_at(f1, i1), self.entry_at(f2, i2)]
                self.points_to_table(f1, i1) && self.points_to_table(f2, i2) && frame_of(
                    self.entry_at(f1, i1),
                ) == frame_of(self.entry_at(f2, i2)) implies f1 == f2 && i1 == i2 by {
                assert(!is_present(0u64)) by (bit_vector);
                assert(f1 != f && f2 != f);
                assert(old(self).points_to_table(f1, i1));
                assert(old(self).points_to_table(f2, i2));
            }
        }
    }

    /// Overwrites entry `i` of the table in frame `f` with `entry`.
    pub fn write_entry(&mut self, f: u64, i: usize, entry: Entry)
        requires
            old(self).wf(),
            old(self).holds_table(f),
            i < ENTRY_COUNT,
            old(self).level_of(f) >= 2 && is_present(entry@) && !is_huge(entry@) ==> old(self).holds_table(frame_of(entry@)) && old(self).level_of(frame_of(entry@)) == old(self).level_of(f) - 1,
            old(self).level_of(f) >= 2 && is_present(entry@) && !is_huge(entry@) ==> forall|g: u64, j: int|
                (g, j) != (f, i as int) && #[trigger] old(self).points_to_table(g, j) ==> frame_of(
                    old(self).entry_at(g, j),
                ) != frame_of(entry@),
        ensures
            final(self).wf(),
            one_entry_written(old(self), final(self), f, i as int, entry@),
    {
        let k = self.find(f).unwrap();
        proof {
            assert(self.tables@[k as int].wf());
        }
        self.tables[k].set_entry(i, entry);
        proof {
            assert forall|m: int| 0 <= m < self.tables@.len() implies (#[trigger] self.tables@[m]).wf()
                && 1 <= self.levels@[m] <= 4 by {
                if m != k {
                    assert(self.tables@[m] == old(self).tables@[m]);
                }
                assert(old(self).tables@[m].wf());
            }
            assert(self.representation_ok());
            self.lemma_levels_bounded();
            assert forall|g: u64| #[trigger] self.holds_table(g) implies g < MAX_FRAME_NUMBER by {
                assert(old(self).holds_table(g));
            }
            assert forall|g: u64, j: int|
                0 <= j < ENTRY_COUNT && (g, j) != (f, i as int) implies #[trigger] self.entry_at(g, j)
                == old(self).entry_at(g, j) by {
                if g == f {
                    assert(j != i);
                }
            }
            assert forall|g: u64, j: int|
                #![trigger self.entry_at(g, j)]
                self.holds_table(g) && self.level_of(g) >= 2 && 0 <= j < ENTRY_COUNT && is_present(
                    self.entry_at(g, j),
                ) && !is_huge(self.entry_at(g, j)) implies self.holds_table(
                frame_of(self.entry_at(g, j)),
            ) && self.level_of(frame_of(self.entry_at(g, j))) == self.level_of(g) - 1 by {
                if (g, j) != (f, i as int) {
                    assert(old(self).entry_at(g, j) == self.entry_at(g, j));
                }
            }
            assert forall|f1: u64, i1: int, f2: u64, i2: int|
                #![trigger self.entry_at(f1, i1), self.entry_at(f2, i2)]
                self.points_to_table(f1, i1) && self.points_to_table(f2, i2) && frame_of(
                    self.entry_at(f1, i1),
                ) == frame_of(self.entry_at(f2, i2)) implies f1 == f2 && i1 == i2 by {
                if (f1, i1) != (f, i as int) {
                    assert(old(self).points_to_table(f1, i1));
                }
                if (f2, i2) != (f, i as int) {
                    assert(old(self).points_to_table(f2, i2));
                }
            }
        }
    }
}

} // verus!

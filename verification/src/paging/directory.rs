//! Two-level (32-bit) paging: a page directory of 1024 entries whose entries point to page
//! tables of 1024 entries, with 32-bit entries.
//!
//! The model keeps, beside each directory entry that points to a table, the entries of
//! that table; no two directory entries point to the same frame, and none to the frame of
//! the directory itself.

use vstd::prelude::*;

use crate::boot::ElfSection;
use crate::memory::{Frame, FrameAllocator};
use crate::paging::mapper::MapToError;
use crate::paging::page32::{p1_index_of, p2_index_of, Page, PAGE_SIZE};

verus! {

/// Entries per table.
pub const ENTRY_COUNT: usize = 1024;

/// The bits of an entry that hold the physical address of a frame.
pub const PHYS_ADDR_MASK: u32 = 0xffff_f000;

/// Frame numbers below this bound have 32-bit addresses.
pub const MAX_FRAME_NUMBER: u64 = 0x10_0000;

pub const PRESENT: u32 = 0x1;

pub const WRITABLE: u32 = 0x2;

pub const HUGE_PAGE: u32 = 0x80;

/// Every bit that names a flag.
pub const ALL_FLAGS: u32 = 0x1ff;

pub open spec fn is_present(e: u32) -> bool {
    e & PRESENT == PRESENT
}

pub open spec fn is_huge(e: u32) -> bool {
    e & HUGE_PAGE == HUGE_PAGE
}

/// The number of the frame whose address an entry holds.
pub open spec fn frame_of(e: u32) -> u32 {
    ((e & PHYS_ADDR_MASK) / 4096) as u32
}

/// The frame an entry points to, if the entry is present.
pub open spec fn pointed_frame_of(e: u32) -> Option<u64> {
    if is_present(e) {
        Some(frame_of(e) as u64)
    } else {
        None
    }
}

/// The raw value that `Entry::set` stores for a frame number and flag bits.
pub open spec fn entry_value(frame_number: u64, flag_bits: u32) -> u32 {
    ((frame_number * 4096) as u32) | flag_bits
}

pub proof fn lemma_entry_value(n: u64, fl: u32)
    requires
        n < MAX_FRAME_NUMBER,
        fl & !ALL_FLAGS == 0,
    ensures
        is_present(entry_value(n, fl)) == (fl & PRESENT == PRESENT),
        is_huge(entry_value(n, fl)) == (fl & HUGE_PAGE == HUGE_PAGE),
        frame_of(entry_value(n, fl)) == n,
{
    let s: u32 = (n * 4096) as u32;
    let m: u32 = n as u32;
    assert(n * 4096 < 0x1_0000_0000) by (nonlinear_arith)
        requires
            n < 0x10_0000,
    ;
    assert(s == m * 4096);
    assert((s | fl) & 0x80u32 == fl & 0x80u32 && (s | fl) & 0x1u32 == fl & 0x1u32 && ((s | fl)
        & 0xffff_f000u32) / 4096 == m) by (bit_vector)
        requires
            s == m * 4096,
            m < 0x10_0000,
            fl & !0x1ffu32 == 0,
    ;
}

/// An unused entry is neither present nor a large page, and the flags of the present and
/// the large-page bit are flag bits.
pub proof fn lemma_unused_entry()
    ensures
        !is_present(0u32),
        !is_huge(0u32),
        PRESENT & !ALL_FLAGS == 0,
        WRITABLE & !ALL_FLAGS == 0,
        (PRESENT | WRITABLE) & !ALL_FLAGS == 0,
        (PRESENT | WRITABLE) & PRESENT == PRESENT,
        (PRESENT | WRITABLE) & HUGE_PAGE != HUGE_PAGE,
        (PRESENT | WRITABLE) & ALL_FLAGS == PRESENT | WRITABLE,
        0u32 & ALL_FLAGS == 0,
        forall|x: u32| #[trigger] (0u32 | x) == x && (x | 0u32) == x,
        PRESENT & ALL_FLAGS == PRESENT,
        HUGE_PAGE & ALL_FLAGS == HUGE_PAGE,
        WRITABLE & ALL_FLAGS == WRITABLE,
{
    assert(0u32 & 0x1u32 != 0x1u32 && 0u32 & 0x80u32 != 0x80u32 && 0x1u32 & !0x1ffu32 == 0
        && 0x2u32 & !0x1ffu32 == 0 && (0x1u32 | 0x2u32) & !0x1ffu32 == 0 && (0x1u32 | 0x2u32)
        & 0x1u32 == 0x1u32 && (0x1u32 | 0x2u32) & 0x80u32 != 0x80u32 && 0x1u32 & 0x1ffu32 == 0x1u32
        && 0x80u32 & 0x1ffu32 == 0x80u32 && 0x2u32 & 0x1ffu32 == 0x2u32 && (0x1u32 | 0x2u32)
        & 0x1ffu32 == (0x1u32 | 0x2u32) && 0u32 & 0x1ffu32 == 0) by (bit_vector);
    assert(forall|x: u32| #[trigger] (0u32 | x) == x && (x | 0u32) == x) by (bit_vector);
}

/// A set of entry flags; only bits that name a flag are ever set.
#[derive(Clone, Copy)]
pub struct EntryFlags {
    bits: u32,
}

impl EntryFlags {
    #[verifier::type_invariant]
    spec fn only_flag_bits(self) -> bool {
        self.bits & !ALL_FLAGS == 0
    }

    pub closed spec fn view(self) -> u32 {
        self.bits
    }

    /// The flags whose bits are set in `bits`; other bits are dropped.
    pub fn from_bits_truncate(bits: u32) -> (r: EntryFlags)
        ensures
            r@ == bits & ALL_FLAGS,
    {
        assert((bits & 0x1ffu32) & !0x1ffu32 == 0) by (bit_vector);
        EntryFlags { bits: bits & ALL_FLAGS }
    }

    pub fn empty() -> (r: EntryFlags)
        ensures
            r@ == 0,
    {
        proof {
            lemma_unused_entry();
        }
        EntryFlags::from_bits_truncate(0)
    }

    pub fn present() -> (r: EntryFlags)
        ensures
            r@ == PRESENT,
    {
        proof {
            lemma_unused_entry();
        }
        EntryFlags::from_bits_truncate(PRESENT)
    }

    pub fn writable() -> (r: EntryFlags)
        ensures
            r@ == WRITABLE,
    {
        proof {
            lemma_unused_entry();
        }
        EntryFlags::from_bits_truncate(WRITABLE)
    }

    /// The flags that an ELF section of the kernel is mapped with: present when the
    /// section is allocated and writable when it is writable.
    pub fn from_elf_section_flags(section: &ElfSection) -> (r: EntryFlags)
        ensures
            r@ == (if section.is_allocated_spec() { PRESENT } else { 0 }) | (if section.is_writable_spec() {
                WRITABLE
            } else {
                0
            }),
    {
        let mut flags = EntryFlags::empty();
        if section.is_allocated() {
            flags = flags.union(EntryFlags::present());
        }
        if section.is_writable() {
            flags = flags.union(EntryFlags::writable());
        }
        proof {
            lemma_unused_entry();
        }
        flags
    }

    pub fn bits(&self) -> (r: u32)
        ensures
            r == self@,
            r & !ALL_FLAGS == 0,
    {
        proof {
            use_type_invariant(self);
        }
        self.bits
    }

    /// Whether every flag of `other` is set in `self`.
    pub fn contains(&self, other: EntryFlags) -> (r: bool)
        ensures
            r == (self@ & other@ == other@),
    {
        self.bits & other.bits == other.bits
    }

    /// The flags set in either operand.
    pub fn union(self, other: EntryFlags) -> (r: EntryFlags)
        ensures
            r@ == self@ | other@,
    {
        proof {
            use_type_invariant(&self);
            use_type_invariant(&other);
        }
        let (a, b) = (self.bits, other.bits);
        assert((a | b) & !0x1ffu32 == 0) by (bit_vector)
            requires
                a & !0x1ffu32 == 0,
                b & !0x1ffu32 == 0,
        ;
        EntryFlags { bits: self.bits | other.bits }
    }
}

/// One 32-bit entry of a page directory or a page table.
#[derive(Clone, Copy)]
pub struct Entry(u32);

impl Entry {
    pub closed spec fn view(&self) -> u32 {
        self.0
    }

    /// An entry that maps nothing.
    pub fn unused() -> (r: Entry)
        ensures
            r@ == 0,
    {
        Entry(0)
    }

    pub fn is_unused(&self) -> (r: bool)
        ensures
            r == (self@ == 0),
    {
        self.0 == 0
    }

    pub fn set_unused(&mut self)
        ensures
            final(self)@ == 0,
    {
        self.0 = 0;
    }

    pub fn flags(&self) -> (r: EntryFlags)
        ensures
            r@ == self@ & ALL_FLAGS,
    {
        EntryFlags::from_bits_truncate(self.0)
    }

    /// The frame this entry points to, if it is present.
    pub fn pointed_frame(&self) -> (r: Option<Frame>)
        ensures
            r == match pointed_frame_of(self@) {
                Some(n) => Some(Frame { number: n }),
                None => None,
            },
    {
        if self.0 & PRESENT == PRESENT {
            Some(Frame { number: ((self.0 & PHYS_ADDR_MASK) / 4096) as u64 })
        } else {
            None
        }
    }

    /// Points this entry at `frame` with `flags`.
    pub fn set(&mut self, frame: Frame, flags: EntryFlags)
        requires
            frame.number < MAX_FRAME_NUMBER,
        ensures
            final(self)@ == entry_value(frame.number, flags@),
    {
        let start = (frame.number * 4096) as u32;
        self.0 = start | flags.bits();
    }
}

/// Pages `n` and `m` have the same directory and table index, so that the same entries
/// map them.
pub open spec fn same_slot(n: u32, m: u32) -> bool {
    p2_index_of(n) == p2_index_of(m) && p1_index_of(n) == p1_index_of(m)
}

/// The mapper of a two-level hierarchy: a page directory and its page tables.
pub struct PageDirectoryMapper {
    has_directory: bool,
    frame: u64,
    directory: Vec<Entry>,
    tables: Vec<Vec<Entry>>,
}

/// The mapper of the two-level layout.
pub type TableMapper = PageDirectoryMapper;

impl PageDirectoryMapper {
    /// The frame of the page directory.
    pub closed spec fn top(&self) -> u64 {
        self.frame
    }

    /// Whether the page directory exists yet; a hierarchy without one maps nothing, and
    /// its first mapping creates it.
    pub closed spec fn directory_exists(&self) -> bool {
        self.has_directory
    }

    /// The number of tables that mapping page `n` creates: the page directory where there
    /// is none yet, and the page table where its directory entry points to none.
    pub open spec fn tables_to_create(&self, n: u32) -> int {
        (if self.directory_exists() {
            0int
        } else {
            1int
        }) + (if self.points_to_table(p2_index_of(n)) {
            0int
        } else {
            1int
        })
    }

    /// Directory entry `i`.
    pub closed spec fn dir(&self, i: int) -> u32 {
        self.directory@[i]@
    }

    /// Entry `j` of the page table that directory entry `i` points to.
    pub closed spec fn leaf(&self, i: int, j: int) -> u32 {
        self.tables@[i]@[j]@
    }

    /// Directory entry `i` points to a page table.
    pub open spec fn points_to_table(&self, i: int) -> bool {
        is_present(self.dir(i)) && !is_huge(self.dir(i))
    }

    pub closed spec fn wf(&self) -> bool {
        &&& self.has_directory ==> self.frame < MAX_FRAME_NUMBER
        &&& !self.has_directory ==> forall|i: int| 0 <= i < ENTRY_COUNT ==> #[trigger] self.dir(i) == 0
        &&& self.directory@.len() == ENTRY_COUNT
        &&& self.tables@.len() == ENTRY_COUNT
        &&& forall|i: int|
            0 <= i < ENTRY_COUNT ==> if #[trigger] self.points_to_table(i) {
                self.tables@[i]@.len() == ENTRY_COUNT && frame_of(self.dir(i)) != self.frame
            } else {
                self.tables@[i]@.len() == 0
            }
        &&& forall|i: int, j: int|
            0 <= i < ENTRY_COUNT && 0 <= j < ENTRY_COUNT && i != j && #[trigger] self.points_to_table(i)
                && #[trigger] self.points_to_table(j) ==> frame_of(self.dir(i)) != frame_of(self.dir(j))
    }

    /// Frame `f` holds the directory or one of its tables.
    pub open spec fn holds_table(&self, f: u64) -> bool {
        (self.directory_exists() && f == self.top()) || exists|i: int|
            0 <= i < ENTRY_COUNT && #[trigger] self.points_to_table(i) && frame_of(self.dir(i)) == f
    }

    /// The frame that page number `n` is mapped to, if any.
    pub open spec fn translate_page_of(&self, n: u32) -> Option<u64> {
        if self.points_to_table(p2_index_of(n)) {
            pointed_frame_of(self.leaf(p2_index_of(n), p1_index_of(n)))
        } else {
            None
        }
    }

    /// Page `n` can be mapped: its directory entry is not a large page, and its table
    /// entry, where there is a table, is unused.
    pub open spec fn can_map(&self, n: u32) -> bool {
        &&& !is_huge(self.dir(p2_index_of(n)))
        &&& self.points_to_table(p2_index_of(n)) ==> self.leaf(p2_index_of(n), p1_index_of(n)) == 0
    }

    /// A hierarchy with an empty page directory in frame `frame`.
    pub fn new(frame: Frame) -> (r: PageDirectoryMapper)
        requires
            frame.number < MAX_FRAME_NUMBER,
        ensures
            r.wf(),
            r.top() == frame.number,
            r.directory_exists(),
            forall|i: int| 0 <= i < ENTRY_COUNT ==> #[trigger] r.dir(i) == 0,
            forall|n: u32| #[trigger] r.translate_page_of(n) is None,
            forall|n: u32| #[trigger] r.can_map(n),
    {
        let mut directory: Vec<Entry> = Vec::new();
        let mut tables: Vec<Vec<Entry>> = Vec::new();
        let mut i: usize = 0;
        proof {
            lemma_unused_entry();
        }
        while i < ENTRY_COUNT
            invariant
                i <= ENTRY_COUNT,
                directory@.len() == i,
                tables@.len() == i,
                forall|j: int| 0 <= j < i ==> #[trigger] directory@[j]@ == 0,
                forall|j: int| 0 <= j < i ==> (#[trigger] tables@[j])@.len() == 0,
            decreases ENTRY_COUNT - i,
        {
            directory.push(Entry::unused());
            tables.push(Vec::new());
            i = i + 1;
        }
        let r = PageDirectoryMapper { has_directory: true, frame: frame.number, directory, tables };
        proof {
            lemma_unused_entry();
            assert forall|n: u32| #[trigger] r.can_map(n) by {
                assert(r.dir(p2_index_of(n)) == 0);
            }
            assert forall|n: u32| #[trigger] r.translate_page_of(n) is None by {
                assert(r.dir(p2_index_of(n)) == 0);
            }
        }
        r
    }

    /// A hierarchy with no page directory yet: it maps nothing, and its first mapping
    /// creates the directory in a frame from the allocator.
    pub fn empty() -> (r: PageDirectoryMapper)
        ensures
            r.wf(),
            !r.directory_exists(),
            forall|n: u32| #[trigger] r.translate_page_of(n) is None,
            forall|n: u32| #[trigger] r.can_map(n),
            forall|f: u64| !#[trigger] r.holds_table(f),
    {
        let mut r = PageDirectoryMapper::new(Frame { number: 0 });
        let ghost r0 = r;
        r.has_directory = false;
        proof {
            lemma_unused_entry();
            assert forall|i: int| 0 <= i < ENTRY_COUNT implies #[trigger] r.dir(i) == 0 by {
                assert(r.dir(i) == r0.dir(i));
            }
            assert forall|i: int| 0 <= i < ENTRY_COUNT implies !#[trigger] r.points_to_table(i) by {
                assert(r.dir(i) == 0);
            }
            assert forall|n: u32| #[trigger] r.translate_page_of(n) is None by {
                assert(r.dir(p2_index_of(n)) == 0);
            }
            assert forall|i: int| 0 <= i < ENTRY_COUNT implies (#[trigger] r.tables@[i])@.len() == 0 by {
                assert(!r0.points_to_table(i));
            }
            assert(r.wf());
        }
        r
    }

    /// Whether the page directory exists yet.
    pub fn has_directory(&self) -> (r: bool)
        ensures
            r == self.directory_exists(),
    {
        self.has_directory
    }

    /// The frame of the page directory.
    pub fn top_table_frame(&self) -> (r: u64)
        ensures
            r == self.top(),
    {
        self.frame
    }

    /// Entry `i` of the page directory.
    pub fn top_table(&self, i: usize) -> (r: Entry)
        requires
            self.wf(),
            i < ENTRY_COUNT,
        ensures
            r@ == self.dir(i as int),
    {
        self.directory[i]
    }

    /// Whether frame `f` holds the directory or one of its tables.
    pub fn has_table(&self, f: u64) -> (r: bool)
        requires
            self.wf(),
        ensures
            r == self.holds_table(f),
    {
        if self.has_directory && f == self.frame {
            return true;
        }
        let mut i: usize = 0;
        while i < ENTRY_COUNT
            invariant
                self.wf(),
                i <= ENTRY_COUNT,
                !self.has_directory || f != self.frame,
                forall|j: int| 0 <= j < i ==> !(#[trigger] self.points_to_table(j) && frame_of(self.dir(j)) == f),
            decreases ENTRY_COUNT - i,
        {
            let e = self.directory[i];
            let flags = e.flags();
            let present = flags.contains(EntryFlags::from_bits_truncate(PRESENT));
            let huge = flags.contains(EntryFlags::from_bits_truncate(HUGE_PAGE));
            proof {
                lemma_flag_bits(e@);
            }
            if present && !huge {
                match e.pointed_frame() {
                    Some(g) => {
                        if g.number == f {
                            proof {
                                assert(self.points_to_table(i as int));
                            }
                            return true;
                        }
                    },
                    None => {},
                }
            }
            i = i + 1;
        }
        false
    }
}

/// A page table of unused entries.
fn unused_table() -> (r: Vec<Entry>)
    ensures
        r@.len() == ENTRY_COUNT,
        forall|j: int| 0 <= j < ENTRY_COUNT ==> #[trigger] r@[j]@ == 0,
{
    let mut t: Vec<Entry> = Vec::new();
    let mut i: usize = 0;
    while i < ENTRY_COUNT
        invariant
            i <= ENTRY_COUNT,
            t@.len() == i,
            forall|j: int| 0 <= j < i ==> #[trigger] t@[j]@ == 0,
        decreases ENTRY_COUNT - i,
    {
        t.push(Entry::unused());
        i = i + 1;
    }
    t
}

impl PageDirectoryMapper {
    /// Whether directory entry `i` points to a page table.
    fn table_present(&self, i: usize) -> (r: bool)
        requires
            self.wf(),
            i < ENTRY_COUNT,
        ensures
            r == self.points_to_table(i as int),
    {
        let flags = self.directory[i].flags();
        proof {
            lemma_flag_bits(self.dir(i as int));
        }
        flags.contains(EntryFlags::from_bits_truncate(PRESENT)) && !flags.contains(
            EntryFlags::from_bits_truncate(HUGE_PAGE),
        )
    }

    /// Makes directory entry `i` point to a page table, a new one of unused entries (in a
    /// frame from `allocator`) when it points to none. Nothing mapped changes.
    fn next_table_create<A: FrameAllocator>(&mut self, i: usize, allocator: &mut A) -> (r: Result<
        (),
        MapToError,
    >)
        requires
            old(self).wf(),
            i < ENTRY_COUNT,
            !is_huge(old(self).dir(i as int)),
            old(allocator).inv(),
            old(self).directory_exists(),
        ensures
            final(self).wf(),
            final(allocator).inv(),
            final(self).top() == old(self).top(),
            final(self).directory_exists(),
            r matches Err(e) ==> e != MapToError::PageUnavailable && *final(self) == *old(self),
            r is Ok ==> final(self).points_to_table(i as int),
            old(self).points_to_table(i as int) ==> r is Ok && *final(self) == *old(self),
            r is Ok && !old(self).points_to_table(i as int) ==> forall|j: int|
                0 <= j < ENTRY_COUNT ==> #[trigger] final(self).leaf(i as int, j) == 0,
            forall|k: int|
                0 <= k < ENTRY_COUNT && k != i ==> #[trigger] final(self).dir(k) == old(self).dir(k),
            forall|k: int, j: int|
                0 <= k < ENTRY_COUNT && k != i ==> #[trigger] final(self).leaf(k, j) == old(self).leaf(k, j),
            forall|n: u32| #[trigger] final(self).translate_page_of(n) == old(self).translate_page_of(n),
            forall|n: u32| #[trigger] final(self).can_map(n) == old(self).can_map(n),
            old(self).points_to_table(i as int) || old(allocator).upcoming().len() == 0 ==> final(allocator).upcoming() == old(allocator).upcoming(),
            !old(self).points_to_table(i as int) && old(allocator).upcoming().len() > 0 ==> final(allocator).upcoming() == old(allocator).upcoming().drop_first(),
            !old(self).points_to_table(i as int) && old(allocator).upcoming().len() == 0 ==> r == Err::<(), MapToError>(MapToError::FrameAllocationFailed),
            !old(self).points_to_table(i as int) && old(allocator).upcoming().len() > 0
                && old(allocator).upcoming()[0].number < MAX_FRAME_NUMBER
                && !old(self).holds_table(old(allocator).upcoming()[0].number) ==> r is Ok,
    {
        proof {
            lemma_unused_entry();
        }
        if self.table_present(i) {
            return Ok(());
        }
        let frame = match allocator.allocate_frame() {
            Some(frame) => frame,
            None => {
                return Err(MapToError::FrameAllocationFailed);
            },
        };
        if frame.number >= MAX_FRAME_NUMBER {
            return Err(MapToError::InvalidFrame);
        }
        if self.has_table(frame.number) {
            return Err(MapToError::FrameInUse);
        }
        let mut entry = Entry::unused();
        let flags = EntryFlags::from_bits_truncate(PRESENT | WRITABLE);
        entry.set(frame, flags);
        proof {
            lemma_entry_value(frame.number, flags@);
        }
        let ghost before = *self;
        self.directory.set(i, entry);
        self.tables.set(i, unused_table());
        proof {
            assert forall|k: int|
                0 <= k < ENTRY_COUNT && k != i implies #[trigger] self.dir(k) == before.dir(k) by {}
            assert forall|k: int|
                0 <= k < ENTRY_COUNT && k != i implies #[trigger] self.points_to_table(k)
                == before.points_to_table(k) by {
                assert(self.dir(k) == before.dir(k));
            }
            assert forall|k: int, j: int|
                0 <= k < ENTRY_COUNT && k != i implies #[trigger] self.leaf(k, j) == before.leaf(k, j) by {}
            assert forall|k: int|
                0 <= k < ENTRY_COUNT && #[trigger] before.points_to_table(k) implies frame_of(before.dir(k))
                != frame.number by {
                assert(k != i);
            }
            assert forall|n: u32| #[trigger] self.translate_page_of(n) == before.translate_page_of(n) by {
                if p2_index_of(n) == i {
                    assert(self.leaf(i as int, p1_index_of(n)) == 0);
                } else {
                    assert(self.points_to_table(p2_index_of(n)) == before.points_to_table(p2_index_of(n)));
                }
            }
            assert forall|n: u32| #[trigger] self.can_map(n) == before.can_map(n) by {
                if p2_index_of(n) == i {
                    assert(self.leaf(i as int, p1_index_of(n)) == 0);
                } else {
                    assert(self.points_to_table(p2_index_of(n)) == before.points_to_table(p2_index_of(n)));
                }
            }
        }
        Ok(())
    }

    /// Maps `page` to `frame` with `flags` (and `PRESENT`), creating with frames from
    /// `allocator` the page directory, where there is none yet, and then the page table on the
    /// way, where it is missing.
    pub fn map_to<A: FrameAllocator>(
        &mut self,
        page: Page,
        frame: Frame,
        flags: EntryFlags,
        allocator: &mut A,
    ) -> (r: Result<(), MapToError>)
        requires
            old(self).wf(),
            old(allocator).inv(),
            frame.number < MAX_FRAME_NUMBER,
            old(self).can_map(page.number),
        ensures
            final(self).wf(),
            final(allocator).inv(),
            old(self).points_to_table(p2_index_of(page.number)) ==> r is Ok,
            old(self).directory_exists() ==> final(self).top() == old(self).top(),
            r is Ok ==> final(self).directory_exists(),
            r is Ok && !old(self).directory_exists() ==> final(self).top() == old(allocator).upcoming()[0].number,
            r matches Err(e) ==> e != MapToError::PageUnavailable,
            r is Ok ==> forall|m: u32| #[trigger]
                final(self).translate_page_of(m) == if same_slot(page.number, m) {
                    Some(frame.number)
                } else {
                    old(self).translate_page_of(m)
                },
            r is Ok ==> final(self).leaf(p2_index_of(page.number), p1_index_of(page.number))
                == entry_value(frame.number, flags@ | PRESENT),
            r is Err ==> forall|m: u32| #[trigger]
                final(self).translate_page_of(m) == old(self).translate_page_of(m),
            forall|m: u32|
                !same_slot(page.number, m) ==> #[trigger] final(self).can_map(m) == old(self).can_map(m),
            r is Ok ==> old(self).tables_to_create(page.number) <= old(allocator).upcoming().len(),
            r is Ok ==> final(allocator).upcoming() == old(allocator).upcoming().skip(
                old(self).tables_to_create(page.number),
            ),
            old(self).tables_to_create(page.number) > 0 && old(allocator).upcoming().len() == 0 ==> r
                == Err::<(), MapToError>(MapToError::FrameAllocationFailed),
            old(self).directory_exists() && (old(self).points_to_table(p2_index_of(page.number)) || old(allocator).upcoming().len() == 0) ==> final(allocator).upcoming() == old(allocator).upcoming(),
            old(self).directory_exists() && !old(self).points_to_table(p2_index_of(page.number)) && old(allocator).upcoming().len() > 0 ==> final(allocator).upcoming() == old(allocator).upcoming().drop_first(),
            old(self).directory_exists() && !old(self).points_to_table(p2_index_of(page.number)) && old(allocator).upcoming().len() > 0
                && old(allocator).upcoming()[0].number < MAX_FRAME_NUMBER
                && !old(self).holds_table(old(allocator).upcoming()[0].number) ==> r is Ok,
            !old(self).directory_exists() && old(allocator).upcoming().len() > 0
                && old(allocator).upcoming()[0].number >= MAX_FRAME_NUMBER ==> r == Err::<(), MapToError>(MapToError::InvalidFrame),
            !old(self).directory_exists() && old(allocator).upcoming().len() > 1
                && old(allocator).upcoming()[0].number < MAX_FRAME_NUMBER
                && old(allocator).upcoming()[1].number < MAX_FRAME_NUMBER
                && old(allocator).upcoming()[1].number != old(allocator).upcoming()[0].number ==> r is Ok,
    {
        let i2 = page.p2_index() as usize;
        let i1 = page.p1_index() as usize;
        let ghost m0 = *self;
        let ghost u0 = allocator.upcoming();
        proof {
            lemma_unused_entry();
            if !self.directory_exists() {
                assert(self.dir(p2_index_of(page.number)) == 0);
            }
        }
        if !self.has_directory {
            let directory_frame = match allocator.allocate_frame() {
                Some(frame) => frame,
                None => {
                    return Err(MapToError::FrameAllocationFailed);
                },
            };
            if directory_frame.number >= MAX_FRAME_NUMBER {
                return Err(MapToError::InvalidFrame);
            }
            self.frame = directory_frame.number;
            self.has_directory = true;
            proof {
                lemma_unused_entry();
                assert forall|k: int| 0 <= k < ENTRY_COUNT implies #[trigger] self.dir(k) == m0.dir(k) by {}
                assert forall|k: int| 0 <= k < ENTRY_COUNT implies !#[trigger] self.points_to_table(k) by {
                    assert(m0.dir(k) == 0);
                }
                assert forall|k: int| 0 <= k < ENTRY_COUNT implies (#[trigger] self.tables@[k])@.len() == 0 by {
                    assert(!m0.points_to_table(k));
                }
                assert(self.wf());
                assert forall|m: u32| #[trigger] self.translate_page_of(m) == m0.translate_page_of(m) by {
                    assert(!self.points_to_table(p2_index_of(m)));
                    assert(!m0.points_to_table(p2_index_of(m)));
                }
                assert forall|m: u32| #[trigger] self.can_map(m) == m0.can_map(m) by {
                    assert(self.dir(p2_index_of(m)) == m0.dir(p2_index_of(m)));
                }
                assert forall|f: u64| #[trigger] self.holds_table(f) ==> f == directory_frame.number by {
                    if self.holds_table(f) && f != directory_frame.number {
                        let i = choose|i: int| 0 <= i < ENTRY_COUNT && #[trigger] self.points_to_table(i) && frame_of(self.dir(i)) == f;
                        assert(!self.points_to_table(i));
                    }
                }
                assert(allocator.upcoming() =~= u0.skip(1));
            }
        }
        let ghost m_dir = *self;
        let ghost u_dir = allocator.upcoming();
        match self.next_table_create(i2, allocator) {
            Ok(()) => {},
            Err(e) => {
                return Err(e);
            },
        }
        let ghost m1 = *self;
        let leaf_flags = flags.union(EntryFlags::from_bits_truncate(PRESENT));
        let _bits = leaf_flags.bits();
        let mut entry = Entry::unused();
        entry.set(frame, leaf_flags);
        proof {
            lemma_unused_entry();
            lemma_entry_value(frame.number, leaf_flags@);
            let lf = leaf_flags@;
            let fv = flags@;
            assert(lf & 0x1u32 == 0x1u32) by (bit_vector)
                requires
                    lf == fv | (0x1u32 & 0x1ffu32),
            ;
            assert(lf == fv | PRESENT);
        }
        self.tables[i2].set(i1, entry);
        proof {
            assert(m0.tables_to_create(page.number) == u0.len() - allocator.upcoming().len());
            assert(allocator.upcoming() =~= u0.skip(m0.tables_to_create(page.number)));
            assert forall|k: int|
                0 <= k < ENTRY_COUNT implies #[trigger] self.dir(k) == m1.dir(k) by {}
            assert forall|k: int|
                0 <= k < ENTRY_COUNT implies #[trigger] self.points_to_table(k) == m1.points_to_table(k) by {
                assert(self.dir(k) == m1.dir(k));
            }
            assert forall|m: u32| #[trigger]
                self.translate_page_of(m) == if same_slot(page.number, m) {
                    Some(frame.number)
                } else {
                    m0.translate_page_of(m)
                } by {
                assert(m1.translate_page_of(m) == m0.translate_page_of(m));
                assert(self.points_to_table(p2_index_of(m)) == m1.points_to_table(p2_index_of(m)));
            }
            assert forall|m: u32|
                !same_slot(page.number, m) implies #[trigger] self.can_map(m) == m0.can_map(m) by {
                assert(m1.can_map(m) == m0.can_map(m));
                assert(self.points_to_table(p2_index_of(m)) == m1.points_to_table(p2_index_of(m)));
            }
        }
        Ok(())
    }

    /// Maps `page` to a frame from `allocator` with `flags` (and `PRESENT`).
    pub fn map<A: FrameAllocator>(&mut self, page: Page, flags: EntryFlags, allocator: &mut A) -> (r:
        Result<(), MapToError>)
        requires
            old(self).wf(),
            old(allocator).inv(),
            old(self).can_map(page.number),
        ensures
            final(self).wf(),
            final(allocator).inv(),
            r is Ok ==> final(self).translate_page_of(page.number) is Some,
            r is Ok ==> forall|m: u32| #[trigger]
                final(self).translate_page_of(m) == if same_slot(page.number, m) {
                    final(self).translate_page_of(page.number)
                } else {
                    old(self).translate_page_of(m)
                },
            r is Err ==> forall|m: u32| #[trigger]
                final(self).translate_page_of(m) == old(self).translate_page_of(m),
            old(allocator).upcoming().len() == 0 ==> r == Err::<(), MapToError>(MapToError::FrameAllocationFailed),
            old(allocator).upcoming().len() > 0 && old(allocator).upcoming()[0].number >= MAX_FRAME_NUMBER
                ==> r == Err::<(), MapToError>(MapToError::InvalidFrame),
            old(self).directory_exists() && old(allocator).upcoming().len() > 0 && old(allocator).upcoming()[0].number < MAX_FRAME_NUMBER && (
            old(self).points_to_table(p2_index_of(page.number)) || (old(allocator).upcoming().len() > 1
                && old(allocator).upcoming()[1].number < MAX_FRAME_NUMBER && !old(self).holds_table(
                old(allocator).upcoming()[1].number,
            ))) ==> r is Ok,
            !old(self).directory_exists() && old(allocator).upcoming().len() > 2
                && old(allocator).upcoming()[0].number < MAX_FRAME_NUMBER
                && old(allocator).upcoming()[1].number < MAX_FRAME_NUMBER
                && old(allocator).upcoming()[2].number < MAX_FRAME_NUMBER
                && old(allocator).upcoming()[2].number != old(allocator).upcoming()[1].number ==> r is Ok,
            r is Ok ==> final(allocator).upcoming() == old(allocator).upcoming().skip(
                1 + old(self).tables_to_create(page.number),
            ),
            r is Ok ==> final(self).translate_page_of(page.number) == Some(old(allocator).upcoming()[0].number),
            forall|m: u32|
                !same_slot(page.number, m) ==> #[trigger] final(self).can_map(m) == old(self).can_map(m),
    {
        let ghost u0 = allocator.upcoming();
        let frame = match allocator.allocate_frame() {
            Some(frame) => frame,
            None => {
                return Err(MapToError::FrameAllocationFailed);
            },
        };
        if frame.number >= MAX_FRAME_NUMBER {
            return Err(MapToError::InvalidFrame);
        }
        let ghost u1 = allocator.upcoming();
        let r = self.map_to(page, frame, flags, allocator);
        proof {
            if r is Ok {
                assert(u1 == u0.drop_first());
                assert(allocator.upcoming() =~= u0.skip(1 + old(self).tables_to_create(page.number)));
            }
        }
        r
    }

    /// Maps the page with the same number as `frame` to `frame`.
    pub fn identity_map<A: FrameAllocator>(
        &mut self,
        frame: Frame,
        flags: EntryFlags,
        allocator: &mut A,
    ) -> (r: Result<(), MapToError>)
        requires
            old(self).wf(),
            old(allocator).inv(),
            frame.number < MAX_FRAME_NUMBER,
            old(self).can_map(frame.number as u32),
        ensures
            final(self).wf(),
            final(allocator).inv(),
            old(self).points_to_table(p2_index_of(frame.number as u32)) ==> r is Ok,
            r is Ok ==> forall|m: u32| #[trigger]
                final(self).translate_page_of(m) == if same_slot(frame.number as u32, m) {
                    Some(frame.number)
                } else {
                    old(self).translate_page_of(m)
                },
            r is Err ==> forall|m: u32| #[trigger]
                final(self).translate_page_of(m) == old(self).translate_page_of(m),
    {
        let page = Page::containing_address((frame.number * 4096) as u32);
        self.map_to(page, frame, flags, allocator)
    }

    /// The frame that `page` is mapped to, if any.
    pub fn translate_page(&self, page: Page) -> (r: Option<Frame>)
        requires
            self.wf(),
        ensures
            r == match self.translate_page_of(page.number) {
                Some(n) => Some(Frame { number: n }),
                None => None,
            },
    {
        let i2 = page.p2_index() as usize;
        if !self.table_present(i2) {
            return None;
        }
        self.tables[i2][page.p1_index() as usize].pointed_frame()
    }

    /// The physical address that `virtual_address` is mapped to, if any.
    pub fn translate(&self, virtual_address: u32) -> (r: Option<u32>)
        requires
            self.wf(),
        ensures
            r == match self.translate_page_of(virtual_address / PAGE_SIZE) {
                Some(n) => Some((n * 4096 + virtual_address % PAGE_SIZE) as u32),
                None => None,
            },
    {
        let offset = virtual_address % PAGE_SIZE;
        match self.translate_page(Page::containing_address(virtual_address)) {
            Some(frame) => {
                proof {
                    lemma_frame_of_bound(self.leaf(
                        p2_index_of(virtual_address / PAGE_SIZE),
                        p1_index_of(virtual_address / PAGE_SIZE),
                    ));
                }
                Some((frame.number * 4096) as u32 + offset)
            },
            None => None,
        }
    }

    /// Removes the mapping of `page`, which must be mapped.
    pub fn unmap<A: FrameAllocator>(&mut self, page: Page, allocator: &mut A)
        requires
            old(self).wf(),
            old(self).translate_page_of(page.number) is Some,
        ensures
            final(self).wf(),
            final(self).top() == old(self).top(),
            *final(allocator) == *old(allocator),
            final(self).leaf(p2_index_of(page.number), p1_index_of(page.number)) == 0,
            forall|m: u32| #[trigger]
                final(self).translate_page_of(m) == if same_slot(page.number, m) {
                    None
                } else {
                    old(self).translate_page_of(m)
                },
    {
        let i2 = page.p2_index() as usize;
        let i1 = page.p1_index() as usize;
        let ghost m0 = *self;
        self.tables[i2].set(i1, Entry::unused());
        proof {
            lemma_unused_entry();
            assert forall|k: int|
                0 <= k < ENTRY_COUNT implies #[trigger] self.points_to_table(k) == m0.points_to_table(k) by {
                assert(self.dir(k) == m0.dir(k));
            }
            assert forall|m: u32| #[trigger]
                self.translate_page_of(m) == if same_slot(page.number, m) {
                    None
                } else {
                    m0.translate_page_of(m)
                } by {
                assert(self.points_to_table(p2_index_of(m)) == m0.points_to_table(p2_index_of(m)));
            }
        }
    }
}

/// Unmapping a page that `map_to` mapped gives back the translations from before the
/// mapping, for every page.
pub proof fn lemma_unmap_undoes_map_to(
    before: &PageDirectoryMapper,
    mapped: &PageDirectoryMapper,
    after: &PageDirectoryMapper,
    n: u32,
    f: u64,
)
    requires
        before.can_map(n),
        forall|m: u32| #[trigger]
            mapped.translate_page_of(m) == if same_slot(n, m) {
                Some(f)
            } else {
                before.translate_page_of(m)
            },
        forall|m: u32| #[trigger]
            after.translate_page_of(m) == if same_slot(n, m) {
                None
            } else {
                mapped.translate_page_of(m)
            },
    ensures
        forall|m: u32| #[trigger] after.translate_page_of(m) == before.translate_page_of(m),
{
    lemma_unused_entry();
    assert forall|m: u32| #[trigger] after.translate_page_of(m) == before.translate_page_of(m) by {
        assert(mapped.translate_page_of(m) == if same_slot(n, m) {
            Some(f)
        } else {
            before.translate_page_of(m)
        });
    }
}

/// The frame an entry points to has a 32-bit address.
proof fn lemma_frame_of_bound(e: u32)
    ensures
        frame_of(e) < MAX_FRAME_NUMBER,
{
    assert((e & 0xffff_f000u32) / 4096 < 0x10_0000) by (bit_vector);
}

/// Reading the flags of an entry keeps the present and the large-page bit.
proof fn lemma_flag_bits(e: u32)
    ensures
        ((e & ALL_FLAGS) & (PRESENT & ALL_FLAGS) == (PRESENT & ALL_FLAGS)) == is_present(e),
        ((e & ALL_FLAGS) & (HUGE_PAGE & ALL_FLAGS) == (HUGE_PAGE & ALL_FLAGS)) == is_huge(e),
{
    assert(((e & 0x1ffu32) & (0x1u32 & 0x1ffu32) == (0x1u32 & 0x1ffu32)) == (e & 0x1u32 == 0x1u32)
        && ((e & 0x1ffu32) & (0x80u32 & 0x1ffu32) == (0x80u32 & 0x1ffu32)) == (e & 0x80u32
        == 0x80u32)) by (bit_vector);
}

} // verus!

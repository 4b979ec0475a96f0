//! Mapping virtual pages to physical frames through the four-level page table hierarchy.

use vstd::prelude::*;

use crate::memory::{
    drew_frames, fresh_frames, lemma_drew_chain, lemma_drew_first_into_table, lemma_drew_keep,
    lemma_drew_none, lemma_fresh_fewer, Frame, FrameAllocator,
};
use crate::paging::entry::{
    entry_value, frame_of, is_huge, is_present, lemma_entry_value, lemma_flag_bits,
    lemma_frame_of_bound, lemma_named_flags, lemma_table_entry_flags, lemma_unused_entry, pointed_frame_of, Entry,
    EntryFlags, ALL_FLAGS, HUGE_PAGE, PRESENT, WRITABLE,
};
use crate::paging::page::{p1_index_of, p2_index_of, p3_index_of, p4_index_of, Page};
use crate::paging::physical::{
    keeps_present_entries, lemma_keeps_present_transitive, lemma_write_keeps_present,
    one_entry_written, PhysicalMemory,
};
use crate::paging::{PhysicalAddress, VirtualAddress, ENTRY_COUNT, MAX_FRAME_NUMBER, PAGE_SIZE};

verus! {

/// Why a page could not be mapped.
#[derive(Clone, Copy, PartialEq, Eq, Structural, Debug)]
pub enum MapToError {
    /// The frame allocator had no frame left for a page or a page table.
    FrameAllocationFailed,
    /// The allocator handed out a frame beyond the physical address range of an entry.
    InvalidFrame,
    /// The allocator handed out a frame that already holds a page table.
    FrameInUse,
    /// A huge page lies on the way to the page, or the page is mapped already.
    PageUnavailable,
}

/// The table that entry `i` of the table in frame `f` points to: present and not huge.
pub open spec fn next_table_of(mem: &PhysicalMemory, f: u64, i: int) -> Option<u64> {
    let e = mem.entry_at(f, i);
    if is_present(e) && !is_huge(e) {
        Some(frame_of(e))
    } else {
        None
    }
}

/// The frame of page `n` through four levels of tables, ending in a level-1 entry.
pub open spec fn translate_normal(mem: &PhysicalMemory, p4: u64, n: u64) -> Option<u64> {
    match next_table_of(mem, p4, p4_index_of(n)) {
        None => None,
        Some(p3) => match next_table_of(mem, p3, p3_index_of(n)) {
            None => None,
            Some(p2) => match next_table_of(mem, p2, p2_index_of(n)) {
                None => None,
                Some(p1) => pointed_frame_of(mem.entry_at(p1, p1_index_of(n))),
            },
        },
    }
}

/// The frame of page `n` inside a 1 GiB page (a huge level-3 entry) or a 2 MiB page (a
/// huge level-2 entry).
pub open spec fn translate_huge(mem: &PhysicalMemory, p4: u64, n: u64) -> Option<u64> {
    match next_table_of(mem, p4, p4_index_of(n)) {
        None => None,
        Some(p3) => {
            let e3 = mem.entry_at(p3, p3_index_of(n));
            if is_present(e3) && is_huge(e3) {
                Some((frame_of(e3) + p2_index_of(n) * 512 + p1_index_of(n)) as u64)
            } else {
                match next_table_of(mem, p3, p3_index_of(n)) {
                    None => None,
                    Some(p2) => {
                        let e2 = mem.entry_at(p2, p2_index_of(n));
                        if is_present(e2) && is_huge(e2) {
                            Some((frame_of(e2) + p1_index_of(n)) as u64)
                        } else {
                            None
                        }
                    },
                }
            }
        },
    }
}

/// The frame that page `n` is mapped to, if any: through level-1 tables first, else
/// through a huge page.
pub open spec fn translate_page_spec(mem: &PhysicalMemory, p4: u64, n: u64) -> Option<u64> {
    match translate_normal(mem, p4, n) {
        Some(f) => Some(f),
        None => translate_huge(mem, p4, n),
    }
}

/// Huge pages met on the way to page `n` start at frames aligned to their size.
pub open spec fn huge_frames_aligned(mem: &PhysicalMemory, p4: u64, n: u64) -> bool {
    match next_table_of(mem, p4, p4_index_of(n)) {
        None => true,
        Some(p3) => {
            let e3 = mem.entry_at(p3, p3_index_of(n));
            if is_present(e3) && is_huge(e3) {
                frame_of(e3) % 262144 == 0
            } else {
                match next_table_of(mem, p3, p3_index_of(n)) {
                    None => true,
                    Some(p2) => {
                        let e2 = mem.entry_at(p2, p2_index_of(n));
                        is_present(e2) && is_huge(e2) ==> frame_of(e2) % 512 == 0
                    },
                }
            }
        },
    }
}

/// Translating page `n` is defined: the huge-page path is taken only where its frames are
/// aligned.
pub open spec fn translation_defined(mem: &PhysicalMemory, p4: u64, n: u64) -> bool {
    translate_normal(mem, p4, n) is Some || huge_frames_aligned(mem, p4, n)
}

/// Page `n` can be mapped: no huge page lies on its way, and its level-1 entry, where it
/// exists, is unused.
pub open spec fn can_map_spec(mem: &PhysicalMemory, p4: u64, n: u64) -> bool {
    &&& !is_huge(mem.entry_at(p4, p4_index_of(n)))
    &&& match next_table_of(mem, p4, p4_index_of(n)) {
        None => true,
        Some(p3) => {
            &&& !is_huge(mem.entry_at(p3, p3_index_of(n)))
            &&& match next_table_of(mem, p3, p3_index_of(n)) {
                None => true,
                Some(p2) => {
                    &&& !is_huge(mem.entry_at(p2, p2_index_of(n)))
                    &&& match next_table_of(mem, p2, p2_index_of(n)) {
                        None => true,
                        Some(p1) => mem.entry_at(p1, p1_index_of(n)) == 0,
                    }
                },
            }
        },
    }
}

/// The level-1 entry of page `n`, when all four levels of tables exist.
pub open spec fn leaf_entry(mem: &PhysicalMemory, p4: u64, n: u64) -> Option<u64> {
    match next_table_of(mem, p4, p4_index_of(n)) {
        None => None,
        Some(p3) => match next_table_of(mem, p3, p3_index_of(n)) {
            None => None,
            Some(p2) => match next_table_of(mem, p2, p2_index_of(n)) {
                None => None,
                Some(p1) => Some(mem.entry_at(p1, p1_index_of(n))),
            },
        },
    }
}

/// The level-1 table on the way to page `n`, when all four levels of tables exist.
pub open spec fn leaf_table(mem: &PhysicalMemory, p4: u64, n: u64) -> Option<u64> {
    match next_table_of(mem, p4, p4_index_of(n)) {
        None => None,
        Some(p3) => match next_table_of(mem, p3, p3_index_of(n)) {
            None => None,
            Some(p2) => next_table_of(mem, p2, p2_index_of(n)),
        },
    }
}

/// The number of tables missing on the way to page `n`: three where the level-4 entry
/// points to no table, two where the level-3 entry does not, one where the level-2 entry
/// does not, none where the level-1 table exists.
pub open spec fn missing_tables(mem: &PhysicalMemory, p4: u64, n: u64) -> int {
    match next_table_of(mem, p4, p4_index_of(n)) {
        None => 3,
        Some(p3) => match next_table_of(mem, p3, p3_index_of(n)) {
            None => 2,
            Some(p2) => match next_table_of(mem, p2, p2_index_of(n)) {
                None => 1,
                Some(_) => 0,
            },
        },
    }
}

/// Page `n` is mapped to a frame through a level-1 entry that holds that frame and the flag
/// bits `flags`.
pub open spec fn mapped_with(mapper: &PageMapLevel4Mapper, n: u64, flags: u64) -> bool {
    mapper.translate_page_of(n) matches Some(f) && mapper.leaf_entry_of(n) == Some(entry_value(f, flags))
}

/// Pages `n` and `m` have the same index at every level, so that the same entries map them.
pub open spec fn same_slot(n: u64, m: u64) -> bool {
    &&& p4_index_of(n) == p4_index_of(m)
    &&& p3_index_of(n) == p3_index_of(m)
    &&& p2_index_of(n) == p2_index_of(m)
    &&& p1_index_of(n) == p1_index_of(m)
}

/// Writing the level-1 entry of page `n` changes the translation of no page in another
/// slot.
pub proof fn lemma_leaf_write_keeps_others(
    old: &PhysicalMemory,
    new: &PhysicalMemory,
    p4: u64,
    n: u64,
    c: u64,
    v: u64,
    m: u64,
)
    requires
        old.wf(),
        old.holds_table(p4),
        old.level_of(p4) == 4,
        leaf_table(old, p4, n) == Some(c),
        one_entry_written(old, new, c, p1_index_of(n), v),
        !same_slot(n, m),
    ensures
        translate_normal(new, p4, m) == translate_normal(old, p4, m),
        translate_huge(new, p4, m) == translate_huge(old, p4, m),
        translate_page_spec(new, p4, m) == translate_page_spec(old, p4, m),
        huge_frames_aligned(new, p4, m) == huge_frames_aligned(old, p4, m),
        can_map_spec(new, p4, m) == can_map_spec(old, p4, m),
        leaf_entry(new, p4, m) == leaf_entry(old, p4, m),
{
    let i4 = p4_index_of(n);
    let i3 = p3_index_of(n);
    let i2 = p2_index_of(n);
    let i1 = p1_index_of(n);
    let j4 = p4_index_of(m);
    let j3 = p3_index_of(m);
    let j2 = p2_index_of(m);
    let j1 = p1_index_of(m);
    let p3 = frame_of(old.entry_at(p4, i4));
    let p2 = frame_of(old.entry_at(p3, i3));
    assert(old.points_to_table(p4, i4));
    assert(old.level_of(p3) == 3);
    assert(old.points_to_table(p3, i3));
    assert(old.level_of(p2) == 2);
    assert(old.points_to_table(p2, i2));
    assert(old.level_of(c) == 1);
    assert(new.entry_at(p4, j4) == old.entry_at(p4, j4));
    let e4 = old.entry_at(p4, j4);
    if is_present(e4) && !is_huge(e4) {
        let q3 = frame_of(e4);
        assert(old.points_to_table(p4, j4));
        assert(old.level_of(q3) == 3);
        assert(new.entry_at(q3, j3) == old.entry_at(q3, j3));
        let e3 = old.entry_at(q3, j3);
        if is_present(e3) && !is_huge(e3) {
            let q2 = frame_of(e3);
            assert(old.points_to_table(q3, j3));
            assert(old.level_of(q2) == 2);
            assert(new.entry_at(q2, j2) == old.entry_at(q2, j2));
            let e2 = old.entry_at(q2, j2);
            if is_present(e2) && !is_huge(e2) {
                let q1 = frame_of(e2);
                assert(old.points_to_table(q2, j2));
                if q1 == c && j1 == i1 {
                    // the same level-2 entry points to both level-1 tables, and so on up
                    assert(q2 == p2 && j2 == i2);
                    assert(q3 == p3 && j3 == i3);
                    assert(j4 == i4);
                    assert(false);
                }
                assert(new.entry_at(q1, j1) == old.entry_at(q1, j1));
            }
        }
    }
}

/// Pointing an unused entry of a table above level 1 at a new, empty table changes the
/// translation of no page.
pub proof fn lemma_new_table_keeps_translations(
    old: &PhysicalMemory,
    new: &PhysicalMemory,
    p4: u64,
    f: u64,
    i: int,
    x: u64,
    m: u64,
)
    requires
        old.wf(),
        old.holds_table(p4),
        old.level_of(p4) == 4,
        old.holds_table(f),
        old.level_of(f) >= 2,
        0 <= i < ENTRY_COUNT,
        !is_present(old.entry_at(f, i)),
        !is_huge(old.entry_at(f, i)),
        !old.holds_table(x),
        forall|j: int| 0 <= j < ENTRY_COUNT ==> #[trigger] new.entry_at(x, j) == 0,
        is_present(new.entry_at(f, i)),
        !is_huge(new.entry_at(f, i)),
        frame_of(new.entry_at(f, i)) == x,
        forall|g: u64, j: int|
            old.holds_table(g) && 0 <= j < ENTRY_COUNT && (g, j) != (f, i) ==> #[trigger] new.entry_at(
                g,
                j,
            ) == old.entry_at(g, j),
    ensures
        translate_page_spec(new, p4, m) == translate_page_spec(old, p4, m),
        huge_frames_aligned(new, p4, m) == huge_frames_aligned(old, p4, m) || translate_normal(old, p4, m) is Some,
        translation_defined(old, p4, m) ==> translation_defined(new, p4, m),
        can_map_spec(new, p4, m) == can_map_spec(old, p4, m),
        leaf_entry(old, p4, m) is Some ==> leaf_entry(new, p4, m) == leaf_entry(old, p4, m),
{
    lemma_unused_entry();
    old.lemma_unheld_frame();
    let j4 = p4_index_of(m);
    let j3 = p3_index_of(m);
    let j2 = p2_index_of(m);
    let j1 = p1_index_of(m);
    assert(new.entry_at(x, j3) == 0);
    assert(new.entry_at(x, j2) == 0);
    assert(new.entry_at(x, j1) == 0);
    if (p4, j4) != (f, i) {
        let e4 = old.entry_at(p4, j4);
        assert(new.entry_at(p4, j4) == e4);
        if is_present(e4) && !is_huge(e4) {
            let q3 = frame_of(e4);
            assert(old.points_to_table(p4, j4));
            assert(old.holds_table(q3) && old.level_of(q3) == 3);
            if (q3, j3) != (f, i) {
                let e3 = old.entry_at(q3, j3);
                assert(new.entry_at(q3, j3) == e3);
                if is_present(e3) && !is_huge(e3) {
                    let q2 = frame_of(e3);
                    assert(old.points_to_table(q3, j3));
                    assert(old.holds_table(q2) && old.level_of(q2) == 2);
                    if (q2, j2) != (f, i) {
                        let e2 = old.entry_at(q2, j2);
                        assert(new.entry_at(q2, j2) == e2);
                        if is_present(e2) && !is_huge(e2) {
                            let q1 = frame_of(e2);
                            assert(old.points_to_table(q2, j2));
                            assert(old.holds_table(q1) && old.level_of(q1) == 1);
                            assert(q1 != f);
                            assert(new.entry_at(q1, j1) == old.entry_at(q1, j1));
                        }
                    }
                }
            }
        }
    }
}

/// A page that is mapped stays mapped to the same frame while no present entry changes.
pub proof fn lemma_translation_kept(old: &PhysicalMemory, new: &PhysicalMemory, p4: u64, n: u64)
    requires
        keeps_present_entries(old, new),
        translate_page_spec(old, p4, n) is Some,
    ensures
        translate_page_spec(new, p4, n) == translate_page_spec(old, p4, n),
        translation_defined(old, p4, n) ==> translation_defined(new, p4, n),
{
    lemma_unused_entry();
    old.lemma_unheld_frame();
    let i4 = p4_index_of(n);
    let i3 = p3_index_of(n);
    let i2 = p2_index_of(n);
    let i1 = p1_index_of(n);
    let e4 = old.entry_at(p4, i4);
    assert(is_present(e4));
    assert(old.holds_table(p4));
    assert(new.entry_at(p4, i4) == e4);
    let p3 = frame_of(e4);
    let e3 = old.entry_at(p3, i3);
    if is_present(e3) {
        assert(old.holds_table(p3));
        assert(new.entry_at(p3, i3) == e3);
        if !is_huge(e3) {
            let p2 = frame_of(e3);
            let e2 = old.entry_at(p2, i2);
            if is_present(e2) {
                assert(old.holds_table(p2));
                assert(new.entry_at(p2, i2) == e2);
                if !is_huge(e2) {
                    let p1 = frame_of(e2);
                    let e1 = old.entry_at(p1, i1);
                    if is_present(e1) {
                        assert(old.holds_table(p1));
                        assert(new.entry_at(p1, i1) == e1);
                    }
                }
            }
        }
    }
}

/// `new` maps every page as `old` does: same top table, every table and every present
/// entry kept, the same translations and the same pages free to map.
#[verifier::opaque]
pub open spec fn same_mappings(old: &PageMapLevel4Mapper, new: &PageMapLevel4Mapper) -> bool {
    &&& new.top() == old.top()
    &&& keeps_present_entries(&old.tables(), &new.tables())
    &&& forall|g: u64|
        old.tables().holds_table(g) ==> #[trigger] new.tables().holds_table(g)
            && new.tables().level_of(g) == old.tables().level_of(g)
    &&& forall|m: u64| #[trigger] new.translate_page_of(m) == old.translate_page_of(m)
    &&& forall|m: u64| old.translation_defined_for(m) ==> #[trigger] new.translation_defined_for(m)
    &&& forall|m: u64| #[trigger] new.can_map(m) == old.can_map(m)
    &&& forall|m: u64|
        old.leaf_entry_of(m) is Some ==> #[trigger] new.leaf_entry_of(m) == old.leaf_entry_of(m)
}

proof fn lemma_same_mappings_chain(
    a: &PageMapLevel4Mapper,
    b: &PageMapLevel4Mapper,
    c: &PageMapLevel4Mapper,
)
    requires
        same_mappings(a, b),
        same_mappings(b, c),
    ensures
        same_mappings(a, c),
{
    reveal(same_mappings);
    lemma_keeps_present_transitive(&a.tables(), &b.tables(), &c.tables());
    assert forall|m: u64| #[trigger] c.translate_page_of(m) == a.translate_page_of(m) by {
        assert(b.translate_page_of(m) == a.translate_page_of(m));
    }
    assert forall|m: u64| a.translation_defined_for(m) implies #[trigger] c.translation_defined_for(m) by {
        assert(b.translation_defined_for(m));
    }
    assert forall|m: u64| #[trigger] c.can_map(m) == a.can_map(m) by {
        assert(b.can_map(m) == a.can_map(m));
    }
    assert forall|m: u64| a.leaf_entry_of(m) is Some implies #[trigger] c.leaf_entry_of(m)
        == a.leaf_entry_of(m) by {
        assert(b.leaf_entry_of(m) == a.leaf_entry_of(m));
    }
}

/// Pages less than 2^36 pages apart never share a slot.
pub proof fn lemma_near_pages_distinct_slots(a: u64, b: u64)
    requires
        a < b,
        b - a < 0x10_0000_0000,
    ensures
        !same_slot(a, b),
{
    assert(a < b && b - a < 0x10_0000_0000u64 ==> !((a / 0x800_0000) % 512 == (b / 0x800_0000) % 512
        && (a / 0x4_0000) % 512 == (b / 0x4_0000) % 512 && (a / 0x200) % 512 == (b / 0x200) % 512
        && a % 512 == b % 512)) by (bit_vector);
}

/// The page number inside a 1 GiB region is its level-2 index times 512 plus its level-1
/// index.
proof fn lemma_offset_in_huge_page(n: u64)
    ensures
        p2_index_of(n) * 512 + p1_index_of(n) == n % 0x4_0000,
{
    let a = n as int;
    assert(((a / 0x200) % 512) * 512 + a % 512 == a % 0x4_0000) by (nonlinear_arith)
        requires
            a >= 0,
    {
        vstd::arithmetic::div_mod::lemma_fundamental_div_mod(a, 0x200);
        vstd::arithmetic::div_mod::lemma_fundamental_div_mod(a / 0x200, 512);
        vstd::arithmetic::div_mod::lemma_fundamental_div_mod(a, 0x4_0000);
        vstd::arithmetic::div_mod::lemma_div_denominator(a, 0x200, 512);
        vstd::arithmetic::div_mod::lemma_mod_mod(a, 0x200, 512);
    }
}

/// Huge pages map their pages in order: a page inside a 1 GiB page (a present, huge
/// level-3 entry starting at frame `s`) is mapped to frame `s` plus the page's offset in its
/// 1 GiB region (`n % 262144`), and a page inside a 2 MiB page (a present, huge level-2
/// entry starting at frame `s`) to `s` plus its offset in its 2 MiB region (`n % 512`).
pub proof fn lemma_huge_page_offsets(mapper: &PageMapLevel4Mapper, n: u64)
    ensures
        next_table_of(&mapper.tables(), mapper.top(), p4_index_of(n)) matches Some(p3) ==> {
            let e3 = mapper.tables().entry_at(p3, p3_index_of(n));
            is_present(e3) && is_huge(e3) ==> mapper.translate_page_of(n) == Some(
                (frame_of(e3) + n % 0x4_0000) as u64,
            )
        },
        next_table_of(&mapper.tables(), mapper.top(), p4_index_of(n)) matches Some(p3) ==> (
        next_table_of(&mapper.tables(), p3, p3_index_of(n)) matches Some(p2) ==> {
            let e2 = mapper.tables().entry_at(p2, p2_index_of(n));
            is_present(e2) && is_huge(e2) ==> mapper.translate_page_of(n) == Some(
                (frame_of(e2) + n % 512) as u64,
            )
        }),
{
    lemma_offset_in_huge_page(n);
}

/// A page that can be mapped is not mapped: neither through level-1 tables nor inside a
/// huge page.
pub proof fn lemma_can_map_unmapped(mapper: &PageMapLevel4Mapper, n: u64)
    requires
        mapper.wf(),
        mapper.can_map(n),
    ensures
        mapper.translate_page_of(n) is None,
        translate_normal(&mapper.tables(), mapper.top(), n) is None,
{
    lemma_unused_entry();
}

/// Pages in the same slot are mapped alike.
pub proof fn lemma_same_slot_same_translation(mapper: &PageMapLevel4Mapper, n: u64, m: u64)
    requires
        same_slot(n, m),
    ensures
        mapper.translate_page_of(m) == mapper.translate_page_of(n),
        mapper.leaf_entry_of(m) == mapper.leaf_entry_of(n),
        mapper.can_map(m) == mapper.can_map(n),
{
}

/// Unmapping a page that `map_to` mapped gives back the translations from before the
/// mapping, for every page.
pub proof fn lemma_unmap_undoes_map_to(
    before: &PageMapLevel4Mapper,
    mapped: &PageMapLevel4Mapper,
    after: &PageMapLevel4Mapper,
    n: u64,
    f: u64,
)
    requires
        before.wf(),
        before.can_map(n),
        forall|m: u64| #[trigger]
            mapped.translate_page_of(m) == if same_slot(n, m) {
                Some(f)
            } else {
                before.translate_page_of(m)
            },
        forall|m: u64| #[trigger]
            after.translate_page_of(m) == if same_slot(n, m) {
                None
            } else {
                mapped.translate_page_of(m)
            },
    ensures
        forall|m: u64| #[trigger] after.translate_page_of(m) == before.translate_page_of(m),
{
    lemma_can_map_unmapped(before, n);
    assert forall|m: u64| #[trigger] after.translate_page_of(m) == before.translate_page_of(m) by {
        assert(mapped.translate_page_of(m) == if same_slot(n, m) {
            Some(f)
        } else {
            before.translate_page_of(m)
        });
        if same_slot(n, m) {
            lemma_same_slot_same_translation(before, n, m);
        }
    }
}

/// A page table hierarchy with a level-4 table at its top.
pub struct PageMapLevel4Mapper {
    p4: u64,
    memory: PhysicalMemory,
}

/// The mapper of the four-level layout.
pub type TableMapper = PageMapLevel4Mapper;

impl PageMapLevel4Mapper {
    /// The frame of the level-4 table.
    pub closed spec fn top(&self) -> u64 {
        self.p4
    }

    /// The frames holding the tables.
    pub closed spec fn tables(&self) -> PhysicalMemory {
        self.memory
    }

    pub open spec fn wf(&self) -> bool {
        &&& self.tables().wf()
        &&& self.tables().holds_table(self.top())
        &&& self.tables().level_of(self.top()) == 4
    }

    /// The frame number that page number `n` is mapped to, if any.
    pub open spec fn translate_page_of(&self, n: u64) -> Option<u64> {
        translate_page_spec(&self.tables(), self.top(), n)
    }

    pub open spec fn translation_defined_for(&self, n: u64) -> bool {
        translation_defined(&self.tables(), self.top(), n)
    }

    pub open spec fn can_map(&self, n: u64) -> bool {
        can_map_spec(&self.tables(), self.top(), n)
    }

    /// The level-1 entry of page number `n`, when all four levels of tables exist.
    pub open spec fn leaf_entry_of(&self, n: u64) -> Option<u64> {
        leaf_entry(&self.tables(), self.top(), n)
    }

    /// Two mappers with the same top table over the same tables are the same.
    pub proof fn lemma_same_parts(&self, other: &PageMapLevel4Mapper)
        requires
            self.top() == other.top(),
            self.tables() == other.tables(),
        ensures
            *self == *other,
    {
    }

    /// A hierarchy whose level-4 table has only unused entries maps no page, and any page
    /// can be mapped in it.
    pub proof fn lemma_empty_top(&self)
        requires
            self.wf(),
            forall|i: int| 0 <= i < ENTRY_COUNT ==> #[trigger] self.tables().entry_at(self.top(), i) == 0,
        ensures
            forall|n: u64| #[trigger] self.can_map(n),
            forall|n: u64| #[trigger] self.translate_page_of(n) is None,
            forall|n: u64| #[trigger] self.leaf_entry_of(n) is None,
            forall|n: u64| #[trigger] self.translation_defined_for(n),
    {
        lemma_unused_entry();
        assert forall|n: u64| #[trigger] self.can_map(n) by {
            assert(self.tables().entry_at(self.top(), p4_index_of(n)) == 0);
        }
        assert forall|n: u64| #[trigger] self.translate_page_of(n) is None by {
            assert(self.tables().entry_at(self.top(), p4_index_of(n)) == 0);
        }
        assert forall|n: u64| #[trigger] self.leaf_entry_of(n) is None by {
            assert(self.tables().entry_at(self.top(), p4_index_of(n)) == 0);
        }
        assert forall|n: u64| #[trigger] self.translation_defined_for(n) by {
            assert(self.tables().entry_at(self.top(), p4_index_of(n)) == 0);
        }
    }

    /// The mapper of the hierarchy in `memory` whose level-4 table is in frame `p4`.
    pub fn new(memory: PhysicalMemory, p4: u64) -> (r: PageMapLevel4Mapper)
        requires
            memory.wf(),
            memory.holds_table(p4),
            memory.level_of(p4) == 4,
        ensures
            r.wf(),
            r.top() == p4,
            r.tables() == memory,
    {
        PageMapLevel4Mapper { p4, memory }
    }

    /// Stores a level-4 table of unused entries in frame `f`; nothing mapped changes.
    pub(crate) fn add_top_table(&mut self, f: u64)
        requires
            old(self).wf(),
            !old(self).tables().holds_table(f),
            f < MAX_FRAME_NUMBER,
        ensures
            final(self).wf(),
            final(self).top() == old(self).top(),
            final(self).tables().holds_table(f),
            final(self).tables().level_of(f) == 4,
            forall|i: int| 0 <= i < ENTRY_COUNT ==> #[trigger] final(self).tables().entry_at(f, i) == 0,
            keeps_present_entries(&old(self).tables(), &final(self).tables()),
            forall|g: u64|
                g != f ==> #[trigger] final(self).tables().holds_table(g) == old(self).tables().holds_table(g),
            forall|g: u64|
                old(self).tables().holds_table(g) ==> #[trigger] final(self).tables().level_of(g)
                    == old(self).tables().level_of(g),
            forall|n: u64| #[trigger]
                final(self).translate_page_of(n) == old(self).translate_page_of(n),
    {
        proof {
            self.memory.lemma_unheld_frame();
        }
        self.memory.add_table(f, 4);
        proof {
            assert forall|n: u64| #[trigger]
                self.translate_page_of(n) == old(self).translate_page_of(n) by {
                assert(self.tables().entry_at(self.p4, p4_index_of(n)) == old(self).tables().entry_at(
                    self.p4,
                    p4_index_of(n),
                ));
                let p3 = frame_of(self.tables().entry_at(self.p4, p4_index_of(n)));
                assert(self.tables().entry_at(p3, p3_index_of(n)) == old(self).tables().entry_at(
                    p3,
                    p3_index_of(n),
                ));
                let p2 = frame_of(self.tables().entry_at(p3, p3_index_of(n)));
                assert(self.tables().entry_at(p2, p2_index_of(n)) == old(self).tables().entry_at(
                    p2,
                    p2_index_of(n),
                ));
                let p1 = frame_of(self.tables().entry_at(p2, p2_index_of(n)));
                assert(self.tables().entry_at(p1, p1_index_of(n)) == old(self).tables().entry_at(
                    p1,
                    p1_index_of(n),
                ));
            }
        }
    }

    /// Makes the level-4 table in frame `f` the top of the hierarchy.
    pub(crate) fn set_top(&mut self, f: u64)
        requires
            old(self).wf(),
            old(self).tables().holds_table(f),
            old(self).tables().level_of(f) == 4,
        ensures
            final(self).wf(),
            final(self).top() == f,
            final(self).tables() == old(self).tables(),
    {
        self.p4 = f;
    }

    /// The frames holding the tables.
    pub fn memory(&self) -> (r: &PhysicalMemory)
        ensures
            *r == self.tables(),
    {
        &self.memory
    }

    /// The frame of the level-4 table.
    pub fn top_table_frame(&self) -> (r: u64)
        ensures
            r == self.top(),
    {
        self.p4
    }

    /// The next table below entry `i` of the table in frame `f`.
    fn next_table(&self, f: u64, i: usize) -> (r: Option<u64>)
        requires
            self.wf(),
            i < ENTRY_COUNT,
        ensures
            r == next_table_of(&self.tables(), f, i as int),
    {
        let e = self.memory.read_entry(f, i);
        let flags = e.flags();
        proof {
            lemma_flag_bits();
            lemma_named_flags();
        }
        if flags.contains(EntryFlags::present()) && !flags.contains(EntryFlags::huge_page()) {
            match e.pointed_frame() {
                Some(frame) => Some(frame.number),
                None => None,
            }
        } else {
            None
        }
    }

    /// The next table below entry `i` of the table in frame `f`, created (empty, one level
    /// lower, in a frame from `allocator`) when there is none.
    fn next_table_create<A: FrameAllocator>(&mut self, f: u64, i: usize, allocator: &mut A) -> (r:
        Result<u64, MapToError>)
        requires
            old(self).wf(),
            old(self).tables().holds_table(f),
            old(self).tables().level_of(f) >= 2,
            i < ENTRY_COUNT,
            !is_huge(old(self).tables().entry_at(f, i as int)),
            old(allocator).inv(),
        ensures
            r matches Err(e) ==> e != MapToError::PageUnavailable,
            final(self).wf(),
            final(self).top() == old(self).top(),
            final(allocator).inv(),
            keeps_present_entries(&old(self).tables(), &final(self).tables()),
            forall|g: u64|
                old(self).tables().holds_table(g) ==> #[trigger] final(self).tables().holds_table(g)
                    && final(self).tables().level_of(g) == old(self).tables().level_of(g),
            forall|g: u64, j: int|
                old(self).tables().holds_table(g) && 0 <= j < ENTRY_COUNT && (g, j) != (f, i as int)
                    ==> #[trigger] final(self).tables().entry_at(g, j) == old(self).tables().entry_at(
                    g,
                    j,
                ),
            r matches Ok(x) ==> next_table_of(&final(self).tables(), f, i as int) == Some(x)
                && final(self).tables().holds_table(x) && final(self).tables().level_of(x) == old(self).tables().level_of(f) - 1,
            next_table_of(&old(self).tables(), f, i as int) matches Some(x) ==> r == Ok::<
                u64,
                MapToError,
            >(x) && final(self).tables() == old(self).tables(),
            next_table_of(&old(self).tables(), f, i as int) is None ==> (r is Err ==> final(self).tables() == old(self).tables()) && (r matches Ok(x) ==> !old(self).tables().holds_table(x) && (forall|j: int|
                0 <= j < ENTRY_COUNT ==> #[trigger] final(self).tables().entry_at(x, j) == 0)),
            same_mappings(old(self), final(self)),
            drew_frames(old(allocator).upcoming(), final(allocator).upcoming(), &old(self).tables(), &final(self).tables(), 1),
            next_table_of(&old(self).tables(), f, i as int) is Some ==> final(allocator).upcoming() == old(allocator).upcoming(),
            next_table_of(&old(self).tables(), f, i as int) is None && fresh_frames(old(allocator).upcoming(), 1, &old(self).tables()) ==> r is Ok,
            next_table_of(&old(self).tables(), f, i as int) is None && old(allocator).upcoming().len() == 0 ==> r == Err::<u64, MapToError>(MapToError::FrameAllocationFailed),
            next_table_of(&old(self).tables(), f, i as int) is None && r is Ok ==> final(allocator).upcoming() == old(allocator).upcoming().drop_first()
                && final(self).tables().entry_at(f, i as int) == entry_value(r->Ok_0, PRESENT | WRITABLE),
    {
        proof {
            lemma_unused_entry();
            reveal(same_mappings);
        }
        let ghost u0 = allocator.upcoming();
        match self.next_table(f, i) {
            Some(x) => {
                proof {
                    lemma_drew_none(u0, &self.memory, 1);
                }
                return Ok(x);
            },
            None => {},
        }
        let frame = match allocator.allocate_frame() {
            Some(frame) => frame,
            None => {
                proof {
                    lemma_drew_none(u0, &self.memory, 1);
                }
                return Err(MapToError::FrameAllocationFailed);
            },
        };
        proof {
            assert(u0.drop_first() =~= u0.skip(1));
            lemma_drew_keep(u0, 1, &self.memory, &self.memory);
        }
        if frame.number >= MAX_FRAME_NUMBER {
            return Err(MapToError::InvalidFrame);
        }
        if self.memory.has_table(frame.number) {
            return Err(MapToError::FrameInUse);
        }
        let level = self.memory.table_level(f);
        let ghost before = self.memory;
        proof {
            before.lemma_unheld_frame();
        }
        self.memory.add_table(frame.number, level - 1);
        let ghost added = self.memory;
        let mut entry = Entry::unused();
        proof {
            lemma_table_entry_flags();
        }
        let flags = EntryFlags::present().union(EntryFlags::writable());
        entry.set(frame, flags);
        proof {
            lemma_entry_value(frame.number, flags@);
        }
        self.memory.write_entry(f, i, entry);
        proof {
            lemma_drew_first_into_table(u0, &before, &self.memory);
            lemma_write_keeps_present(&added, &self.memory, f, i as int, entry@);
            lemma_keeps_present_transitive(&before, &added, &self.memory);
            assert forall|j: int| 0 <= j < ENTRY_COUNT implies #[trigger] self.memory.entry_at(
                frame.number,
                j,
            ) == 0 by {
                assert(added.entry_at(frame.number, j) == 0);
            }
            assert(!is_present(before.entry_at(f, i as int)));
            assert forall|m: u64| #[trigger]
                self.translate_page_of(m) == old(self).translate_page_of(m) by {
                lemma_new_table_keeps_translations(&before, &self.memory, self.p4, f, i as int, frame.number, m);
            }
            assert forall|m: u64|
                old(self).translation_defined_for(m) implies #[trigger] self.translation_defined_for(m) by {
                lemma_new_table_keeps_translations(&before, &self.memory, self.p4, f, i as int, frame.number, m);
            }
            assert forall|m: u64| #[trigger] self.can_map(m) == old(self).can_map(m) by {
                lemma_new_table_keeps_translations(&before, &self.memory, self.p4, f, i as int, frame.number, m);
            }
            assert forall|m: u64|
                old(self).leaf_entry_of(m) is Some implies #[trigger] self.leaf_entry_of(m)
                    == old(self).leaf_entry_of(m) by {
                lemma_new_table_keeps_translations(&before, &self.memory, self.p4, f, i as int, frame.number, m);
            }
        }
        Ok(frame.number)
    }

    /// The level-1 table on the way to `page`, with the tables above it created (empty, in
    /// frames from `allocator`) where they are missing. Nothing mapped changes.
    fn create_path<A: FrameAllocator>(&mut self, page: Page, allocator: &mut A) -> (r: Result<
        u64,
        MapToError,
    >)
        requires
            old(self).wf(),
            old(allocator).inv(),
            old(self).can_map(page.number),
        ensures
            r matches Err(e) ==> e != MapToError::PageUnavailable,
            final(self).wf(),
            final(allocator).inv(),
            same_mappings(old(self), final(self)),
            leaf_table(&old(self).tables(), old(self).top(), page.number) is Some ==> r is Ok,
            r matches Ok(p1) ==> {
                &&& leaf_table(&final(self).tables(), final(self).top(), page.number) == Some(p1)
                &&& final(self).tables().entry_at(p1, p1_index_of(page.number)) == 0
            },
            drew_frames(old(allocator).upcoming(), final(allocator).upcoming(), &old(self).tables(), &final(self).tables(), 3),
            fresh_frames(old(allocator).upcoming(), 3, &old(self).tables()) ==> r is Ok,
            leaf_table(&old(self).tables(), old(self).top(), page.number) is None && old(allocator).upcoming().len() == 0
                ==> r == Err::<u64, MapToError>(MapToError::FrameAllocationFailed),
            r is Ok ==> old(allocator).upcoming().len() - final(allocator).upcoming().len() == missing_tables(&old(self).tables(), old(self).top(), page.number),
    {
        let ghost m0 = *self;
        let ghost u0 = allocator.upcoming();
        proof {
            if fresh_frames(u0, 3, &m0.memory) {
                lemma_fresh_fewer(u0, 3, 1, &m0.memory);
            }
        }
        let p3 = match self.next_table_create(self.p4, page.p4_index(), allocator) {
            Ok(x) => x,
            Err(e) => {
                return Err(e);
            },
        };
        let ghost m1 = *self;
        let ghost u1 = allocator.upcoming();
        proof {
            if fresh_frames(u0, 3, &m0.memory) {
                assert(fresh_frames(u1, 3 - (u0.len() - u1.len()), &m1.memory));
                lemma_fresh_fewer(u1, 3 - (u0.len() - u1.len()), 1, &m1.memory);
            }
        }
        assert(self.can_map(page.number)) by {
            reveal(same_mappings);
        }
        let p2 = match self.next_table_create(p3, page.p3_index(), allocator) {
            Ok(x) => x,
            Err(e) => {
                proof {
                    lemma_same_mappings_chain(&m0, &m1, self);
                    lemma_drew_chain(u0, u1, allocator.upcoming(), &m0.memory, &m1.memory, &self.memory, 1, 1);
                }
                return Err(e);
            },
        };
        let ghost m2 = *self;
        let ghost u2 = allocator.upcoming();
        proof {
            lemma_drew_chain(u0, u1, u2, &m0.memory, &m1.memory, &m2.memory, 1, 1);
            if fresh_frames(u0, 3, &m0.memory) {
                assert(fresh_frames(u2, 3 - (u0.len() - u2.len()), &m2.memory));
                lemma_fresh_fewer(u2, 3 - (u0.len() - u2.len()), 1, &m2.memory);
            }
        }
        assert(self.can_map(page.number)) by {
            reveal(same_mappings);
            assert(m1.can_map(page.number));
        }
        assert(self.memory.entry_at(self.p4, p4_index_of(page.number)) == m1.memory.entry_at(
            self.p4,
            p4_index_of(page.number),
        ));
        let r = self.next_table_create(p2, page.p2_index(), allocator);
        proof {
            lemma_drew_chain(u0, u2, allocator.upcoming(), &m0.memory, &m2.memory, &self.memory, 2, 1);
            lemma_same_mappings_chain(&m0, &m1, &m2);
            lemma_same_mappings_chain(&m0, &m2, self);
            if let Ok(p1) = r {
                let top = self.p4;
                assert(self.memory.entry_at(top, p4_index_of(page.number)) == m1.memory.entry_at(
                    top,
                    p4_index_of(page.number),
                ));
                assert(self.memory.entry_at(p3, p3_index_of(page.number)) == m2.memory.entry_at(
                    p3,
                    p3_index_of(page.number),
                ));
                assert(leaf_table(&self.memory, top, page.number) == Some(p1));
                let u3 = allocator.upcoming();
                assert(u0.len() - u3.len() == missing_tables(&m0.memory, top, page.number)) by {
                    lemma_unused_entry();
                    let i3 = p3_index_of(page.number);
                    let i2 = p2_index_of(page.number);
                    if next_table_of(&m0.memory, top, p4_index_of(page.number)) is Some {
                        assert(m1.memory == m0.memory && u1 == u0);
                        if next_table_of(&m1.memory, p3, i3) is Some {
                            assert(m2.memory == m1.memory && u2 == u1);
                        } else {
                            assert(m2.memory.entry_at(p2, i2) == 0);
                            assert(u2.len() == u1.len() - 1);
                        }
                    } else {
                        assert(u1.len() == u0.len() - 1);
                        assert(m1.memory.entry_at(p3, i3) == 0);
                        assert(u2.len() == u1.len() - 1);
                        assert(m2.memory.entry_at(p2, i2) == 0);
                    }
                }
                reveal(same_mappings);
                assert(self.can_map(page.number));
            }
        }
        r
    }

    /// Maps `page` to `frame` with `flags` (and `PRESENT`), creating the missing tables on
    /// the way with frames from `allocator`.
    pub fn map_to<A: FrameAllocator>(
        &mut self,
        page: Page,
        frame: Frame,
        flags: EntryFlags,
        allocator: &mut A,
    ) -> (r: Result<(), MapToError>)
        requires
            old(self).wf(),
            old(allocator).inv(),
            frame.number < MAX_FRAME_NUMBER,
            old(self).can_map(page.number),
        ensures
            r matches Err(e) ==> e != MapToError::PageUnavailable,
            final(self).wf(),
            final(self).top() == old(self).top(),
            forall|g: u64|
                old(self).tables().holds_table(g) ==> #[trigger] final(self).tables().holds_table(g)
                    && final(self).tables().level_of(g) == old(self).tables().level_of(g),
            final(allocator).inv(),
            leaf_table(&old(self).tables(), old(self).top(), page.number) is Some ==> r is Ok,
            keeps_present_entries(&old(self).tables(), &final(self).tables()),
            r is Ok ==> final(self).translate_page_of(page.number) == Some(frame.number),
            r is Ok ==> translate_normal(&final(self).tables(), final(self).top(), page.number)
                == Some(frame.number),
            r is Ok ==> leaf_entry(&final(self).tables(), final(self).top(), page.number) == Some(
                entry_value(frame.number, flags@ | PRESENT),
            ),
            forall|n: u64|
                #[trigger] old(self).translate_page_of(n) is Some ==> final(self).translate_page_of(
                    n,
                ) == old(self).translate_page_of(n),
            r is Ok ==> forall|m: u64| #[trigger]
                final(self).translate_page_of(m) == if same_slot(page.number, m) {
                    Some(frame.number)
                } else {
                    old(self).translate_page_of(m)
                },
            r is Err ==> forall|m: u64| #[trigger]
                final(self).translate_page_of(m) == old(self).translate_page_of(m),
            forall|m: u64|
                old(self).translation_defined_for(m) ==> #[trigger] final(self).translation_defined_for(m),
            forall|m: u64|
                !same_slot(page.number, m) ==> #[trigger] final(self).can_map(m) == old(self).can_map(m),
            forall|m: u64|
                !same_slot(page.number, m) && old(self).leaf_entry_of(m) is Some
                    ==> #[trigger] final(self).leaf_entry_of(m) == old(self).leaf_entry_of(m),
            drew_frames(old(allocator).upcoming(), final(allocator).upcoming(), &old(self).tables(), &final(self).tables(), 3),
            fresh_frames(old(allocator).upcoming(), 3, &old(self).tables()) ==> r is Ok,
            leaf_table(&old(self).tables(), old(self).top(), page.number) is None && old(allocator).upcoming().len() == 0
                ==> r == Err::<(), MapToError>(MapToError::FrameAllocationFailed),
            r is Ok ==> old(allocator).upcoming().len() - final(allocator).upcoming().len() == missing_tables(&old(self).tables(), old(self).top(), page.number),
    {
        let ghost m0 = *self;
        let ghost u0 = allocator.upcoming();
        let p1 = match self.create_path(page, allocator) {
            Ok(p1) => p1,
            Err(e) => {
                proof {
                    reveal(same_mappings);
                    self.lemma_keeps_mappings(&m0.tables());
                }
                return Err(e);
            },
        };
        proof {
            reveal(same_mappings);
        }
        let ghost m3 = *self;
        let ghost s3 = self.memory;
        let ghost top = self.p4;
        let mut entry = Entry::unused();
        let leaf_flags = flags.union(EntryFlags::present());
        entry.set(frame, leaf_flags);
        let _leaf_bits = leaf_flags.bits();
        proof {
            lemma_unused_entry();
            lemma_named_flags();
            lemma_table_entry_flags();
            lemma_entry_value(frame.number, leaf_flags@);
            assert(s3.level_of(p1) == 1);
        }
        self.memory.write_entry(p1, page.p1_index(), entry);
        proof {
            let s4 = self.memory;
            let u3 = allocator.upcoming();
            assert(u3.skip(0) =~= u3);
            lemma_drew_keep(u3, 0, &s3, &s4);
            lemma_drew_chain(u0, u3, u3, &m0.memory, &s3, &s4, 3, 0);
            lemma_write_keeps_present(&s3, &s4, p1, p1_index_of(page.number), entry@);
            lemma_keeps_present_transitive(&m0.tables(), &s3, &s4);
            self.lemma_keeps_mappings(&m0.tables());
            assert(translate_normal(&s4, top, page.number) == Some(frame.number)) by {
                let i4 = p4_index_of(page.number);
                let i3 = p3_index_of(page.number);
                let i2 = p2_index_of(page.number);
                let q3 = frame_of(s3.entry_at(top, i4));
                let q2 = frame_of(s3.entry_at(q3, i3));
                assert(s3.level_of(q3) == 3);
                assert(s3.level_of(q2) == 2);
                assert(s4.entry_at(top, i4) == s3.entry_at(top, i4));
                assert(s4.entry_at(q3, i3) == s3.entry_at(q3, i3));
                assert(s4.entry_at(q2, i2) == s3.entry_at(q2, i2));
            }
            assert forall|m: u64| #[trigger]
                self.translate_page_of(m) == if same_slot(page.number, m) {
                    Some(frame.number)
                } else {
                    m0.translate_page_of(m)
                } by {
                assert(m3.translate_page_of(m) == m0.translate_page_of(m));
                if !same_slot(page.number, m) {
                    lemma_leaf_write_keeps_others(&s3, &s4, top, page.number, p1, entry@, m);
                }
            }
            assert forall|m: u64|
                m0.translation_defined_for(m) implies #[trigger] self.translation_defined_for(m) by {
                assert(m3.translation_defined_for(m));
                if !same_slot(page.number, m) {
                    lemma_leaf_write_keeps_others(&s3, &s4, top, page.number, p1, entry@, m);
                }
            }
            assert forall|m: u64|
                !same_slot(page.number, m) implies #[trigger] self.can_map(m) == m0.can_map(m) by {
                assert(m3.can_map(m) == m0.can_map(m));
                lemma_leaf_write_keeps_others(&s3, &s4, top, page.number, p1, entry@, m);
            }
            assert forall|m: u64|
                !same_slot(page.number, m) && m0.leaf_entry_of(m) is Some implies #[trigger] self.leaf_entry_of(m)
                    == m0.leaf_entry_of(m) by {
                assert(m3.leaf_entry_of(m) == m0.leaf_entry_of(m));
                lemma_leaf_write_keeps_others(&s3, &s4, top, page.number, p1, entry@, m);
            }
        }
        Ok(())
    }

    /// Maps `page` to a frame from `allocator` with `flags` (and `PRESENT`).
    pub fn map<A: FrameAllocator>(&mut self, page: Page, flags: EntryFlags, allocator: &mut A) -> (r:
        Result<(), MapToError>)
        requires
            old(self).wf(),
            old(allocator).inv(),
            old(self).can_map(page.number),
        ensures
            final(self).wf(),
            final(self).top() == old(self).top(),
            forall|g: u64|
                old(self).tables().holds_table(g) ==> #[trigger] final(self).tables().holds_table(g)
                    && final(self).tables().level_of(g) == old(self).tables().level_of(g),
            final(allocator).inv(),
            keeps_present_entries(&old(self).tables(), &final(self).tables()),
            r is Ok ==> final(self).translate_page_of(page.number) is Some,
            forall|n: u64|
                #[trigger] old(self).translate_page_of(n) is Some ==> final(self).translate_page_of(n)
                    == old(self).translate_page_of(n),
            r is Ok ==> forall|m: u64| #[trigger]
                final(self).translate_page_of(m) == if same_slot(page.number, m) {
                    final(self).translate_page_of(page.number)
                } else {
                    old(self).translate_page_of(m)
                },
            r is Err ==> forall|m: u64| #[trigger]
                final(self).translate_page_of(m) == old(self).translate_page_of(m),
            forall|m: u64|
                old(self).translation_defined_for(m) ==> #[trigger] final(self).translation_defined_for(m),
            forall|m: u64|
                !same_slot(page.number, m) ==> #[trigger] final(self).can_map(m) == old(self).can_map(m),
            drew_frames(old(allocator).upcoming(), final(allocator).upcoming(), &old(self).tables(), &final(self).tables(), 4),
            old(allocator).upcoming().len() == 0 ==> r == Err::<(), MapToError>(MapToError::FrameAllocationFailed),
            old(allocator).upcoming().len() > 0 && old(allocator).upcoming()[0].number >= MAX_FRAME_NUMBER
                ==> r == Err::<(), MapToError>(MapToError::InvalidFrame),
            old(allocator).upcoming().len() > 0 && old(allocator).upcoming()[0].number < MAX_FRAME_NUMBER
                && fresh_frames(old(allocator).upcoming().drop_first(), 3, &old(self).tables()) ==> r is Ok,
            r is Ok ==> final(self).translate_page_of(page.number) == Some(old(allocator).upcoming()[0].number),
            old(allocator).upcoming().len() == 1 && old(allocator).upcoming()[0].number < MAX_FRAME_NUMBER
                && leaf_table(&old(self).tables(), old(self).top(), page.number) is None
                ==> r == Err::<(), MapToError>(MapToError::FrameAllocationFailed),
            r is Ok ==> old(allocator).upcoming().len() - final(allocator).upcoming().len() == 1 + missing_tables(&old(self).tables(), old(self).top(), page.number),
            r is Ok ==> final(self).leaf_entry_of(page.number) == Some(
                entry_value(old(allocator).upcoming()[0].number, flags@ | PRESENT),
            ),
            forall|m: u64|
                !same_slot(page.number, m) && old(self).leaf_entry_of(m) is Some
                    ==> #[trigger] final(self).leaf_entry_of(m) == old(self).leaf_entry_of(m),
    {
        let ghost u0 = allocator.upcoming();
        let frame = match allocator.allocate_frame() {
            Some(frame) => frame,
            None => {
                proof {
                    self.lemma_keeps_mappings(&self.memory);
                    lemma_drew_none(u0, &self.memory, 4);
                }
                return Err(MapToError::FrameAllocationFailed);
            },
        };
        proof {
            assert(u0.drop_first() =~= u0.skip(1));
            lemma_drew_keep(u0, 1, &self.memory, &self.memory);
        }
        if frame.number >= MAX_FRAME_NUMBER {
            proof {
                self.lemma_keeps_mappings(&self.memory);
            }
            return Err(MapToError::InvalidFrame);
        }
        let ghost m1 = *self;
        let r = self.map_to(page, frame, flags, allocator);
        proof {
            lemma_drew_chain(u0, u0.skip(1), allocator.upcoming(), &m1.memory, &m1.memory, &self.memory, 1, 3);
        }
        r
    }

    /// Maps the page with the same number as `frame` to `frame`.
    pub fn identity_map<A: FrameAllocator>(
        &mut self,
        frame: Frame,
        flags: EntryFlags,
        allocator: &mut A,
    ) -> (r: Result<(), MapToError>)
        requires
            old(self).wf(),
            old(allocator).inv(),
            frame.number < MAX_FRAME_NUMBER,
            old(self).can_map(frame.number),
        ensures
            final(self).wf(),
            final(self).top() == old(self).top(),
            forall|g: u64|
                old(self).tables().holds_table(g) ==> #[trigger] final(self).tables().holds_table(g)
                    && final(self).tables().level_of(g) == old(self).tables().level_of(g),
            final(allocator).inv(),
            leaf_table(&old(self).tables(), old(self).top(), frame.number) is Some ==> r is Ok,
            keeps_present_entries(&old(self).tables(), &final(self).tables()),
            r is Ok ==> final(self).translate_page_of(frame.number) == Some(frame.number),
            forall|n: u64|
                #[trigger] old(self).translate_page_of(n) is Some ==> final(self).translate_page_of(n)
                    == old(self).translate_page_of(n),
            r is Ok ==> forall|m: u64| #[trigger]
                final(self).translate_page_of(m) == if same_slot(frame.number, m) {
                    Some(frame.number)
                } else {
                    old(self).translate_page_of(m)
                },
            r is Ok ==> final(self).leaf_entry_of(frame.number) == Some(
                entry_value(frame.number, flags@ | PRESENT),
            ),
            r is Err ==> forall|m: u64| #[trigger]
                final(self).translate_page_of(m) == old(self).translate_page_of(m),
            forall|m: u64|
                old(self).translation_defined_for(m) ==> #[trigger] final(self).translation_defined_for(m),
            forall|m: u64|
                !same_slot(frame.number, m) ==> #[trigger] final(self).can_map(m) == old(self).can_map(m),
            forall|m: u64|
                !same_slot(frame.number, m) && old(self).leaf_entry_of(m) is Some
                    ==> #[trigger] final(self).leaf_entry_of(m) == old(self).leaf_entry_of(m),
            drew_frames(old(allocator).upcoming(), final(allocator).upcoming(), &old(self).tables(), &final(self).tables(), 3),
            fresh_frames(old(allocator).upcoming(), 3, &old(self).tables()) ==> r is Ok,
            leaf_table(&old(self).tables(), old(self).top(), frame.number) is None && old(allocator).upcoming().len() == 0
                ==> r == Err::<(), MapToError>(MapToError::FrameAllocationFailed),
    {
        let page = Page::containing_address(frame.start_address());
        self.map_to(page, frame, flags, allocator)
    }

    /// Removes the mapping of `page`, which must be mapped through level-1 tables.
    pub fn unmap<A: FrameAllocator>(&mut self, page: Page, allocator: &mut A)
        requires
            old(self).wf(),
            translate_normal(&old(self).tables(), old(self).top(), page.number) is Some,
        ensures
            *final(allocator) == *old(allocator),
            final(self).wf(),
            final(self).top() == old(self).top(),
            forall|g: u64|
                old(self).tables().holds_table(g) ==> #[trigger] final(self).tables().holds_table(g)
                    && final(self).tables().level_of(g) == old(self).tables().level_of(g),
            final(self).translate_page_of(page.number) is None,
            final(self).translation_defined_for(page.number),
            leaf_entry(&final(self).tables(), final(self).top(), page.number) == Some(0u64),
            exists|p1: u64|
                one_entry_written(
                    &old(self).tables(),
                    &final(self).tables(),
                    p1,
                    p1_index_of(page.number),
                    0,
                ),
            forall|m: u64| #[trigger]
                final(self).translate_page_of(m) == if same_slot(page.number, m) {
                    None
                } else {
                    old(self).translate_page_of(m)
                },
            forall|m: u64|
                old(self).translation_defined_for(m) ==> #[trigger] final(self).translation_defined_for(m),
            forall|m: u64|
                !same_slot(page.number, m) ==> #[trigger] final(self).leaf_entry_of(m) == old(self).leaf_entry_of(m),
    {
        let i4 = page.p4_index();
        let i3 = page.p3_index();
        let i2 = page.p2_index();
        let i1 = page.p1_index();
        let ghost s0 = self.memory;
        let ghost top = self.p4;
        let p3 = match self.next_table(self.p4, i4) {
            Some(x) => x,
            None => {
                return ;
            },
        };
        let p2 = match self.next_table(p3, i3) {
            Some(x) => x,
            None => {
                return ;
            },
        };
        let p1 = match self.next_table(p2, i2) {
            Some(x) => x,
            None => {
                return ;
            },
        };
        proof {
            assert(s0.level_of(p3) == 3 && s0.level_of(p2) == 2 && s0.level_of(p1) == 1);
        }
        self.memory.write_entry(p1, i1, Entry::unused());
        proof {
            lemma_unused_entry();
            let s1 = self.memory;
            assert(s1.entry_at(top, i4 as int) == s0.entry_at(top, i4 as int));
            assert(s1.entry_at(p3, i3 as int) == s0.entry_at(p3, i3 as int));
            assert(s1.entry_at(p2, i2 as int) == s0.entry_at(p2, i2 as int));
            assert(one_entry_written(&s0, &s1, p1, p1_index_of(page.number), 0));
            assert(leaf_table(&s0, top, page.number) == Some(p1));
            assert forall|m: u64| #[trigger]
                self.translate_page_of(m) == if same_slot(page.number, m) {
                    None
                } else {
                    old(self).translate_page_of(m)
                } by {
                if !same_slot(page.number, m) {
                    lemma_leaf_write_keeps_others(&s0, &s1, top, page.number, p1, 0, m);
                }
            }
            assert forall|m: u64|
                old(self).translation_defined_for(m) implies #[trigger] self.translation_defined_for(m) by {
                if !same_slot(page.number, m) {
                    lemma_leaf_write_keeps_others(&s0, &s1, top, page.number, p1, 0, m);
                }
            }
            assert forall|m: u64|
                !same_slot(page.number, m) implies #[trigger] self.leaf_entry_of(m) == old(self).leaf_entry_of(m) by {
                lemma_leaf_write_keeps_others(&s0, &s1, top, page.number, p1, 0, m);
            }
        }
    }

    proof fn lemma_keeps_mappings(&self, old: &PhysicalMemory)
        requires
            keeps_present_entries(old, &self.tables()),
        ensures
            forall|n: u64|
                #[trigger] translate_page_spec(old, self.top(), n) is Some ==> self.translate_page_of(
                    n,
                ) == translate_page_spec(old, self.top(), n),
    {
        assert forall|n: u64| #[trigger]
            translate_page_spec(old, self.top(), n) is Some implies self.translate_page_of(n)
            == translate_page_spec(old, self.top(), n) by {
            lemma_translation_kept(old, &self.tables(), self.top(), n);
        }
    }

    /// Whether `page` can be mapped: no huge page lies on its way and its level-1 entry,
    /// where it exists, is unused.
    pub fn can_map_page(&self, page: Page) -> (r: bool)
        requires
            self.wf(),
        ensures
            r == self.can_map(page.number),
    {
        proof {
            lemma_flag_bits();
            lemma_named_flags();
        }
        let i4 = page.p4_index();
        let i3 = page.p3_index();
        let i2 = page.p2_index();
        let i1 = page.p1_index();
        if self.memory.read_entry(self.p4, i4).flags().contains(EntryFlags::huge_page()) {
            return false;
        }
        match self.next_table(self.p4, i4) {
            None => true,
            Some(p3) => {
                if self.memory.read_entry(p3, i3).flags().contains(EntryFlags::huge_page()) {
                    return false;
                }
                match self.next_table(p3, i3) {
                    None => true,
                    Some(p2) => {
                        if self.memory.read_entry(p2, i2).flags().contains(EntryFlags::huge_page()) {
                            return false;
                        }
                        match self.next_table(p2, i2) {
                            None => true,
                            Some(p1) => self.memory.read_entry(p1, i1).is_unused(),
                        }
                    },
                }
            },
        }
    }

    /// Whether `page` is mapped through four levels of tables (not inside a huge page).
    pub fn is_mapped_through_tables(&self, page: Page) -> (r: bool)
        requires
            self.wf(),
        ensures
            r == (translate_normal(&self.tables(), self.top(), page.number) is Some),
    {
        proof {
            lemma_flag_bits();
            lemma_named_flags();
        }
        match self.next_table(self.p4, page.p4_index()) {
            None => false,
            Some(p3) => match self.next_table(p3, page.p3_index()) {
                None => false,
                Some(p2) => match self.next_table(p2, page.p2_index()) {
                    None => false,
                    Some(p1) => self.memory.read_entry(p1, page.p1_index()).flags().contains(
                        EntryFlags::present(),
                    ),
                },
            },
        }
    }

    /// The frame that `page` is mapped to, if any.
    pub fn translate_page(&self, page: Page) -> (r: Option<Frame>)
        requires
            self.wf(),
            self.translation_defined_for(page.number),
        ensures
            r == (match self.translate_page_of(page.number) {
                Some(n) => Some(Frame { number: n }),
                None => None,
            }),
            r matches Some(f) ==> f.number < MAX_FRAME_NUMBER + 512 * 512,
    {
        let i4 = page.p4_index();
        let i3 = page.p3_index();
        let i2 = page.p2_index();
        let i1 = page.p1_index();
        let p3 = self.next_table(self.p4, i4);
        let normal = match p3 {
            None => None,
            Some(p3f) => match self.next_table(p3f, i3) {
                None => None,
                Some(p2f) => match self.next_table(p2f, i2) {
                    None => None,
                    Some(p1f) => {
                        let e1 = self.memory.read_entry(p1f, i1);
                        proof {
                            lemma_frame_of_bound(e1@);
                        }
                        e1.pointed_frame()
                    },
                },
            },
        };
        match normal {
            Some(frame) => {
                return Some(frame);
            },
            None => {},
        }
        // Not mapped through level-1 tables: look for a huge page.
        proof {
            lemma_flag_bits();
            lemma_named_flags();
        }
        match p3 {
            None => None,
            Some(p3f) => {
                let e3 = self.memory.read_entry(p3f, i3);
                match e3.pointed_frame() {
                    Some(start) => {
                        if e3.flags().contains(EntryFlags::huge_page()) {
                            proof {
                                lemma_frame_of_bound(e3@);
                            }
                            // a 1 GiB page: its frame is aligned to 512 * 512 frames
                            return Some(
                                Frame {
                                    number: start.number + (i2 as u64) * 512 + (i1 as u64),
                                },
                            );
                        }
                    },
                    None => {},
                }
                match self.next_table(p3f, i3) {
                    Some(p2f) => {
                        let e2 = self.memory.read_entry(p2f, i2);
                        match e2.pointed_frame() {
                            Some(start) => {
                                if e2.flags().contains(EntryFlags::huge_page()) {
                                    proof {
                                        lemma_frame_of_bound(e2@);
                                    }
                                    // a 2 MiB page: its frame is aligned to 512 frames
                                    return Some(Frame { number: start.number + (i1 as u64) });
                                }
                            },
                            None => {},
                        }
                        None
                    },
                    None => None,
                }
            },
        }
    }

    /// The physical address that `virtual_address` is mapped to, if any.
    pub fn translate(&self, virtual_address: VirtualAddress) -> (r: Option<PhysicalAddress>)
        requires
            self.wf(),
            self.translation_defined_for(virtual_address / PAGE_SIZE),
        ensures
            r == (match self.translate_page_of(virtual_address / PAGE_SIZE) {
                Some(n) => Some((n * PAGE_SIZE + virtual_address % PAGE_SIZE) as u64),
                None => None,
            }),
    {
        let offset = virtual_address % PAGE_SIZE;
        match self.translate_page(Page::containing_address(virtual_address)) {
            Some(frame) => Some(frame.number * PAGE_SIZE + offset),
            None => None,
        }
    }
}

} // verus!

//! The hierarchy of page tables that the processor translates through, hierarchies being
//! prepared beside it, and the remapping of the kernel into a fresh hierarchy.
//!
//! Tables are reached directly in the frames that hold them (see `physical`), not through
//! a recursive entry. This is a deliberate change of model: a fresh top table has only unused
//! entries (its last entry does not map the table itself), and where a recursive layout points
//! the active top table's last entry at an inactive table for a while and then back at itself,
//! `ActivePageTable::with` makes the inactive top table the mapper's top for the call and the
//! active one again afterwards; its `ensures` states that restoration (the active top frame is
//! the same after the call) in place of the restored recursive entry.

use vstd::prelude::*;

use crate::boot::{BootInformation, ElfSection};
use crate::memory::{
    drew_frames, fresh_frames, lemma_drew_chain, lemma_drew_first_into_table, lemma_drew_keep,
    lemma_fresh_fewer, Frame, FrameAllocator,
};
use crate::paging::entry::{
    elf_section_entry_flags, entry_value, is_present, lemma_entry_value, lemma_flag_bits,
    lemma_named_flags, lemma_table_entry_flags, EntryFlags, ALL_FLAGS, PRESENT, WRITABLE,
};
use crate::paging::mapper::{same_slot, translate_normal, MapToError, TableMapper};
use crate::paging::page::Page;
use crate::paging::{ENTRY_COUNT, MAX_FRAME_NUMBER, PAGE_SIZE};

verus! {

/// Physical address of the VGA text buffer.
pub const VGA_BUFFER_ADDRESS: u64 = 0xb8000;

/// The frames `first..=last`, each with `flags`.
pub open spec fn frame_range(first: int, last: int, flags: u64) -> Seq<(u64, u64)> {
    Seq::new(
        if first <= last {
            (last - first + 1) as nat
        } else {
            0
        },
        |k: int| ((first + k) as u64, flags),
    )
}

/// The frames an allocated section occupies, with the flags it is mapped with; nothing
/// for a section that is not allocated.
pub open spec fn section_mappings(s: ElfSection) -> Seq<(u64, u64)> {
    if s.is_allocated_spec() {
        frame_range(
            (s.start_address / PAGE_SIZE) as int,
            (s.end_address - 1) / (PAGE_SIZE as int),
            elf_section_entry_flags(s),
        )
    } else {
        Seq::empty()
    }
}

/// The frames of the allocated sections, section after section.
pub open spec fn sections_mappings(secs: Seq<ElfSection>) -> Seq<(u64, u64)>
    decreases secs.len(),
{
    if secs.len() == 0 {
        Seq::empty()
    } else {
        sections_mappings(secs.drop_last()) + section_mappings(secs.last())
    }
}

/// The sections of the kernel image (none when the boot loader passed none).
pub open spec fn boot_sections(boot: &BootInformation) -> Seq<ElfSection> {
    match boot.elf_sections {
        Some(v) => v@,
        None => Seq::empty(),
    }
}

/// The frames the kernel identity-maps, in order, each with its flags: the allocated
/// sections, the VGA text buffer (writable), and the boot information (read-only).
pub open spec fn kernel_mappings(boot: &BootInformation) -> Seq<(u64, u64)> {
    sections_mappings(boot_sections(boot)) + seq![(VGA_BUFFER_ADDRESS / PAGE_SIZE, WRITABLE)]
        + frame_range(
        (boot.start_address / PAGE_SIZE) as int,
        (boot.end_address - 1) / (PAGE_SIZE as int),
        PRESENT,
    )
}

/// The frame numbers and flag bits of `v`.
pub open spec fn flags_view(v: Seq<(u64, EntryFlags)>) -> Seq<(u64, u64)> {
    v.map_values(|p: (u64, EntryFlags)| (p.0, p.1@))
}

/// Appends the frames `first..=last`, each with `flags`.
fn push_frame_range(v: &mut Vec<(u64, EntryFlags)>, first: u64, last: u64, flags: EntryFlags)
    requires
        last < u64::MAX,
    ensures
        flags_view(final(v)@) == flags_view(old(v)@) + frame_range(first as int, last as int, flags@),
{
    let ghost start = flags_view(v@);
    let mut f = first;
    if first > last {
        assert(flags_view(v@) =~= start + frame_range(first as int, last as int, flags@));
        return;
    }
    while f <= last
        invariant
            first <= f <= last + 1,
            last < u64::MAX,
            flags_view(v@) == start + frame_range(first as int, f - 1, flags@),
        decreases last + 1 - f,
    {
        let ghost before = v@;
        v.push((f, flags));
        assert(flags_view(v@) =~= flags_view(before).push((f, flags@)));
        assert(frame_range(first as int, f as int, flags@) =~= frame_range(
            first as int,
            f - 1,
            flags@,
        ).push((f, flags@)));
        f = f + 1;
    }
}

/// The frames the kernel identity-maps, with their flags (see `kernel_mappings`).
pub fn kernel_mappings_of(boot_info: &BootInformation) -> (r: Vec<(u64, EntryFlags)>)
    requires
        boot_info.end_address >= 1,
        forall|k: int|
            0 <= k < boot_sections(boot_info).len() && (#[trigger] boot_sections(
                boot_info,
            )[k]).is_allocated_spec() ==> boot_sections(boot_info)[k].end_address >= 1,
    ensures
        flags_view(r@) == kernel_mappings(boot_info),
{
    let mut v: Vec<(u64, EntryFlags)> = Vec::new();
    let ghost secs = boot_sections(boot_info);
    match &boot_info.elf_sections {
        Some(sections) => {
            let mut s: usize = 0;
            while s < sections.len()
                invariant
                    secs == sections@,
                    s <= sections@.len(),
                    forall|k: int|
                        0 <= k < secs.len() && (#[trigger] secs[k]).is_allocated_spec()
                            ==> secs[k].end_address >= 1,
                    flags_view(v@) == sections_mappings(secs.take(s as int)),
                decreases sections@.len() - s,
            {
                let section = &sections[s];
                let ghost before = flags_view(v@);
                if section.is_allocated() {
                    let flags = EntryFlags::from_elf_section_flags(section);
                    push_frame_range(
                        &mut v,
                        section.start_address / PAGE_SIZE,
                        (section.end_address - 1) / PAGE_SIZE,
                        flags,
                    );
                }
                assert(secs.take(s + 1).drop_last() =~= secs.take(s as int));
                assert(flags_view(v@) =~= before + section_mappings(secs[s as int]));
                s = s + 1;
            }
            assert(secs.take(sections@.len() as int) =~= secs);
        },
        None => {
            assert(flags_view(v@) =~= sections_mappings(secs));
        },
    }
    let ghost before = v@;
    v.push((VGA_BUFFER_ADDRESS / PAGE_SIZE, EntryFlags::writable()));
    assert(flags_view(v@) =~= flags_view(before).push((VGA_BUFFER_ADDRESS / PAGE_SIZE, WRITABLE)));
    push_frame_range(
        &mut v,
        boot_info.start_address / PAGE_SIZE,
        (boot_info.end_address - 1) / PAGE_SIZE,
        EntryFlags::present(),
    );
    assert(flags_view(v@) =~= kernel_mappings(boot_info));
    v
}

/// No two of the frames share a slot of the page table hierarchy.
pub open spec fn slots_distinct(list: Seq<(u64, u64)>) -> bool {
    forall|j: int, k: int|
        0 <= j < k < list.len() ==> !same_slot(#[trigger] list[j].0, #[trigger] list[k].0)
}

/// The frame that page `m` reaches when the first `len` frames of `list` are identity
/// mapped: the frame in the same slot, if any.
pub open spec fn identity_target(list: Seq<(u64, u64)>, len: int, m: u64) -> Option<u64> {
    if exists|k: int| 0 <= k < len && same_slot(#[trigger] list[k].0, m) {
        Some(list[choose|k: int| 0 <= k < len && same_slot(#[trigger] list[k].0, m)].0)
    } else {
        None
    }
}

/// The hierarchy of page tables that the processor translates through.
pub struct ActivePageTable {
    mapper: TableMapper,
}

/// A hierarchy of page tables that is prepared but not in use.
pub struct InactivePageTable {
    frame: Frame,
}

impl InactivePageTable {
    /// The frame of its level-4 table.
    pub closed spec fn frame_spec(&self) -> Frame {
        self.frame
    }

    /// A hierarchy whose level-4 table, in `frame`, has only unused entries (no recursive
    /// entry: tables are reached by their frames). The table is stored beside those of
    /// `active_table`.
    pub fn new(frame: Frame, active_table: &mut ActivePageTable) -> (r: InactivePageTable)
        requires
            old(active_table).mapper_spec().wf(),
            !old(active_table).mapper_spec().tables().holds_table(frame.number),
            frame.number < MAX_FRAME_NUMBER,
        ensures
            r.frame_spec() == frame,
            final(active_table).mapper_spec().wf(),
            final(active_table).mapper_spec().top() == old(active_table).mapper_spec().top(),
            final(active_table).mapper_spec().tables().holds_table(frame.number),
            final(active_table).mapper_spec().tables().level_of(frame.number) == 4,
            forall|i: int|
                0 <= i < ENTRY_COUNT ==> #[trigger] final(active_table).mapper_spec().tables().entry_at(
                    frame.number,
                    i,
                ) == 0,
            forall|g: u64|
                old(active_table).mapper_spec().tables().holds_table(g) ==> #[trigger] final(active_table).mapper_spec().tables().holds_table(g) && final(active_table).mapper_spec().tables().level_of(g)
                    == old(active_table).mapper_spec().tables().level_of(g),
            forall|n: u64| #[trigger]
                final(active_table).mapper_spec().translate_page_of(n) == old(active_table).mapper_spec().translate_page_of(n),
            forall|g: u64|
                g != frame.number ==> #[trigger] final(active_table).mapper_spec().tables().holds_table(g)
                    == old(active_table).mapper_spec().tables().holds_table(g),
    {
        active_table.mapper.add_top_table(frame.number);
        InactivePageTable { frame }
    }

    /// The frame of its level-4 table.
    pub fn frame(&self) -> (r: Frame)
        ensures
            r == self.frame_spec(),
    {
        self.frame
    }
}

impl ActivePageTable {
    pub closed spec fn mapper_spec(&self) -> TableMapper {
        self.mapper
    }

    /// The active hierarchy is the one `mapper` works on.
    pub fn new(mapper: TableMapper) -> (r: ActivePageTable)
        ensures
            r.mapper_spec() == mapper,
    {
        ActivePageTable { mapper }
    }

    /// The physical address of the level-4 table, as the processor holds it.
    pub fn address(&self) -> (r: u64)
        requires
            self.mapper_spec().wf(),
        ensures
            r == self.mapper_spec().top() * PAGE_SIZE,
    {
        self.mapper.top_table_frame() * PAGE_SIZE
    }

    /// The mapper of the active hierarchy.
    pub fn mapper(&self) -> (r: &TableMapper)
        ensures
            *r == self.mapper_spec(),
    {
        &self.mapper
    }

    /// The mapper of the active hierarchy, taken out.
    pub fn into_mapper(self) -> (r: TableMapper)
        ensures
            r == self.mapper_spec(),
    {
        self.mapper
    }

    /// The mapper of the active hierarchy, to change it.
    pub fn mapper_mut(&mut self) -> (r: &mut TableMapper)
        ensures
            *r == old(self).mapper_spec(),
            final(self).mapper_spec() == *final(r),
    {
        &mut self.mapper
    }

    /// Makes `new_table` the active hierarchy; the one active before comes back, inactive.
    pub fn switch(&mut self, new_table: InactivePageTable) -> (r: InactivePageTable)
        requires
            old(self).mapper_spec().wf(),
            old(self).mapper_spec().tables().holds_table(new_table.frame_spec().number),
            old(self).mapper_spec().tables().level_of(new_table.frame_spec().number) == 4,
        ensures
            final(self).mapper_spec().wf(),
            final(self).mapper_spec().top() == new_table.frame_spec().number,
            final(self).mapper_spec().tables() == old(self).mapper_spec().tables(),
            r.frame_spec().number == old(self).mapper_spec().top(),
    {
        let old_table = InactivePageTable { frame: Frame { number: self.mapper.top_table_frame() } };
        self.mapper.set_top(new_table.frame.number);
        old_table
    }

    /// Runs `f` on the mapper of `table`, as if that hierarchy were active, then makes the
    /// active hierarchy active again: the top frame after the call is the one before it, and
    /// `table` is unchanged. What `f` changes in the tables stays.
    pub fn with<F: FnOnce(&mut TableMapper)>(&mut self, table: &mut InactivePageTable, f: F)
        requires
            old(self).mapper_spec().wf(),
            old(self).mapper_spec().tables().holds_table(old(table).frame_spec().number),
            old(self).mapper_spec().tables().level_of(old(table).frame_spec().number) == 4,
            forall|a: &mut TableMapper|
                a.wf() && a.top() == old(table).frame_spec().number ==> #[trigger] call_requires(f, (a,)),
            forall|a: &mut TableMapper|
                #[trigger] call_ensures(f, (a,), ()) ==> final(a).wf() && final(a).tables().holds_table(
                    old(self).mapper_spec().top(),
                ) && final(a).tables().level_of(old(self).mapper_spec().top()) == 4,
        ensures
            *final(table) == *old(table),
            final(self).mapper_spec().wf(),
            final(self).mapper_spec().top() == old(self).mapper_spec().top(),
            exists|a: &mut TableMapper|
                {
                    &&& a.top() == old(table).frame_spec().number
                    &&& a.tables() == old(self).mapper_spec().tables()
                    &&& call_ensures(f, (a,), ())
                    &&& final(a).tables() == final(self).mapper_spec().tables()
                },
    {
        let backup = self.mapper.top_table_frame();
        self.mapper.set_top(table.frame.number);
        f(&mut self.mapper);
        self.mapper.set_top(backup);
    }
}

/// What the kernel image and the boot information must satisfy for the kernel to be
/// remapped: the sections are known, allocated sections start on a page boundary and end
/// after address zero, every frame to map has an address an entry can hold, no two frames
/// share a slot, and one of them shares the slot of the active level-4 table's frame.
pub open spec fn remap_ready(boot: &BootInformation, active_top: u64) -> bool {
    let list = kernel_mappings(boot);
    &&& boot.elf_sections is Some
    &&& boot.end_address >= 1
    &&& forall|k: int|
        0 <= k < boot_sections(boot).len() && (#[trigger] boot_sections(boot)[k]).is_allocated_spec()
            ==> boot_sections(boot)[k].start_address % PAGE_SIZE == 0 && boot_sections(
            boot,
        )[k].end_address >= 1
    &&& forall|k: int| 0 <= k < list.len() ==> (#[trigger] list[k]).0 < MAX_FRAME_NUMBER
    &&& slots_distinct(list)
    &&& exists|k: int| 0 <= k < list.len() && same_slot(#[trigger] list[k].0, active_top)
}

/// The first `i` frames of `list` are identity-mapped in the hierarchy of `mapper`, each
/// with its flags (and `PRESENT`), nothing else is mapped, and every page outside their
/// slots can still be mapped.
#[verifier::opaque]
pub open spec fn identity_mapped(mapper: &TableMapper, list: Seq<(u64, u64)>, i: int) -> bool {
    &&& forall|n: u64|
        (forall|j: int| 0 <= j < i ==> !same_slot(#[trigger] list[j].0, n))
            ==> #[trigger] mapper.can_map(n)
    &&& forall|m: u64| #[trigger] mapper.translate_page_of(m) == identity_target(list, i, m)
    &&& forall|j: int|
        0 <= j < i ==> #[trigger] mapper.leaf_entry_of(list[j].0) == Some(
            entry_value(list[j].0, list[j].1 | PRESENT),
        )
}

/// `next` is `prev` with frame `f` identity-mapped with flag bits `fl`.
pub open spec fn identity_mapped_one(prev: &TableMapper, next: &TableMapper, f: u64, fl: u64) -> bool {
    &&& forall|m: u64| #[trigger]
        next.translate_page_of(m) == if same_slot(f, m) {
            Some(f)
        } else {
            prev.translate_page_of(m)
        }
    &&& next.leaf_entry_of(f) == Some(entry_value(f, fl | PRESENT))
    &&& forall|m: u64| !same_slot(f, m) ==> #[trigger] next.can_map(m) == prev.can_map(m)
    &&& forall|m: u64|
        !same_slot(f, m) && prev.leaf_entry_of(m) is Some ==> #[trigger] next.leaf_entry_of(m)
            == prev.leaf_entry_of(m)
}

proof fn lemma_identity_start(mapper: &TableMapper, list: Seq<(u64, u64)>)
    requires
        mapper.wf(),
        forall|i: int| 0 <= i < ENTRY_COUNT ==> #[trigger] mapper.tables().entry_at(mapper.top(), i) == 0,
    ensures
        identity_mapped(mapper, list, 0),
{
    reveal(identity_mapped);
    mapper.lemma_empty_top();
}

proof fn lemma_identity_step(prev: &TableMapper, next: &TableMapper, list: Seq<(u64, u64)>, i: int)
    requires
        0 <= i < list.len(),
        slots_distinct(list),
        identity_mapped(prev, list, i),
        identity_mapped_one(prev, next, list[i].0, list[i].1),
    ensures
        identity_mapped(next, list, i + 1),
{
    reveal(identity_mapped);
    let n = list[i].0;
    assert forall|m: u64| #[trigger] next.translate_page_of(m) == identity_target(list, i + 1, m) by {
        if same_slot(n, m) {
            let k = choose|k: int| 0 <= k < i + 1 && same_slot(#[trigger] list[k].0, m);
            assert(same_slot(list[i].0, m));
            if k != i {
                assert(!same_slot(list[k].0, list[i].0));
            }
        } else {
            if exists|k: int| 0 <= k < i + 1 && same_slot(#[trigger] list[k].0, m) {
                let k1 = choose|k: int| 0 <= k < i + 1 && same_slot(#[trigger] list[k].0, m);
                assert(k1 != i);
                assert(exists|k: int| 0 <= k < i && same_slot(#[trigger] list[k].0, m));
                let k0 = choose|k: int| 0 <= k < i && same_slot(#[trigger] list[k].0, m);
                if k0 < k1 {
                    assert(!same_slot(list[k0].0, list[k1].0));
                } else if k1 < k0 {
                    assert(!same_slot(list[k1].0, list[k0].0));
                }
            } else {
                assert forall|k: int| 0 <= k < i implies !same_slot(#[trigger] list[k].0, m) by {
                    assert(!(0 <= k < i + 1 && same_slot(list[k].0, m)));
                }
            }
            assert(prev.translate_page_of(m) == identity_target(list, i, m));
        }
    }
    assert forall|n2: u64|
        (forall|j: int| 0 <= j < i + 1 ==> !same_slot(#[trigger] list[j].0, n2)) implies #[trigger] next.can_map(
        n2,
    ) by {
        assert(!same_slot(list[i].0, n2));
        assert(prev.can_map(n2));
    }
    assert forall|j: int|
        0 <= j < i + 1 implies #[trigger] next.leaf_entry_of(list[j].0) == Some(
        entry_value(list[j].0, list[j].1 | PRESENT),
    ) by {
        if j < i {
            assert(!same_slot(list[j].0, list[i].0));
            assert(prev.leaf_entry_of(list[j].0) is Some);
        }
    }
}

/// A frame that is not identity-mapped yet and shares no slot with those that are can be
/// mapped.
proof fn lemma_identity_next_free(mapper: &TableMapper, list: Seq<(u64, u64)>, i: int)
    requires
        0 <= i < list.len(),
        slots_distinct(list),
        identity_mapped(mapper, list, i),
    ensures
        mapper.can_map(list[i].0),
{
    reveal(identity_mapped);
    assert forall|j: int| 0 <= j < i implies !same_slot(#[trigger] list[j].0, list[i].0) by {}
}

/// Every table of `a` is still held by `b`, at the same level.
pub open spec fn tables_kept(a: &TableMapper, b: &TableMapper) -> bool {
    forall|g: u64|
        a.tables().holds_table(g) ==> #[trigger] b.tables().holds_table(g) && b.tables().level_of(g)
            == a.tables().level_of(g)
}

/// Identity-maps each frame of `mappings` with its flags (and `PRESENT`) in the hierarchy
/// of `mapper`, whose top table has only unused entries; new tables come from `allocator`.
fn identity_map_all<A: FrameAllocator>(
    mapper: &mut TableMapper,
    mappings: &Vec<(u64, EntryFlags)>,
    allocator: &mut A,
) -> (r: Result<(), MapToError>)
    requires
        old(mapper).wf(),
        old(allocator).inv(),
        forall|i: int|
            0 <= i < ENTRY_COUNT ==> #[trigger] old(mapper).tables().entry_at(old(mapper).top(), i) == 0,
        slots_distinct(flags_view(mappings@)),
        forall|k: int| 0 <= k < mappings@.len() ==> (#[trigger] mappings@[k]).0 < MAX_FRAME_NUMBER,
    ensures
        final(allocator).inv(),
        final(mapper).wf(),
        final(mapper).top() == old(mapper).top(),
        forall|g: u64|
            old(mapper).tables().holds_table(g) ==> #[trigger] final(mapper).tables().holds_table(g)
                && final(mapper).tables().level_of(g) == old(mapper).tables().level_of(g),
        r is Ok ==> identity_mapped(final(mapper), flags_view(mappings@), mappings@.len() as int),
        r is Ok ==> forall|k: int| 0 <= k < mappings@.len() ==> (#[trigger] mappings@[k]).1@ & !ALL_FLAGS == 0,
        drew_frames(old(allocator).upcoming(), final(allocator).upcoming(), &old(mapper).tables(), &final(mapper).tables(), 3 * mappings@.len() as int),
        fresh_frames(old(allocator).upcoming(), 3 * mappings@.len() as int, &old(mapper).tables()) ==> r is Ok,
{
    let ghost list = flags_view(mappings@);
    proof {
        lemma_identity_start(mapper, list);
    }
    let ghost orig = *mapper;
    let ghost u0 = allocator.upcoming();
    let ghost enough = fresh_frames(u0, 3 * mappings@.len() as int, &orig.tables());
    proof {
        assert(u0.skip(0) =~= u0);
        lemma_drew_keep(u0, 0, &orig.tables(), &orig.tables());
    }
    let mut i: usize = 0;
    let mut result: Result<(), MapToError> = Ok(());
    while i < mappings.len()
        invariant_except_break
            result is Ok,
            identity_mapped(mapper, list, i as int),
            forall|j: int| 0 <= j < i ==> (#[trigger] mappings@[j]).1@ & !ALL_FLAGS == 0,
            drew_frames(u0, allocator.upcoming(), &orig.tables(), &mapper.tables(), 3 * i),
        invariant
            u0 == old(allocator).upcoming(),
            orig == *old(mapper),
            enough == fresh_frames(u0, 3 * mappings@.len() as int, &orig.tables()),
            enough ==> result is Ok,
            i <= mappings@.len(),
            list == flags_view(mappings@),
            list.len() == mappings@.len(),
            slots_distinct(list),
            forall|k: int| 0 <= k < mappings@.len() ==> (#[trigger] mappings@[k]).0 < MAX_FRAME_NUMBER,
            allocator.inv(),
            mapper.wf(),
            mapper.top() == orig.top(),
            tables_kept(&orig, mapper),
        ensures
            result is Ok ==> identity_mapped(mapper, list, mappings@.len() as int),
            result is Ok ==> forall|j: int|
                0 <= j < mappings@.len() ==> (#[trigger] mappings@[j]).1@ & !ALL_FLAGS == 0,
            drew_frames(u0, allocator.upcoming(), &orig.tables(), &mapper.tables(), 3 * mappings@.len() as int),
        decreases mappings@.len() - i,
    {
        let (n, flags) = mappings[i];
        let _bits = flags.bits();
        let ghost prev = *mapper;
        let ghost up = allocator.upcoming();
        proof {
            assert(list[i as int] == (n, flags@));
            lemma_identity_next_free(mapper, list, i as int);
            if enough {
                assert(fresh_frames(up, 3 * mappings@.len() as int - (u0.len() - up.len()), &prev.tables()));
                lemma_fresh_fewer(up, 3 * mappings@.len() as int - (u0.len() - up.len()), 3, &prev.tables());
            }
        }
        match mapper.identity_map(Frame { number: n }, flags, allocator) {
            Ok(()) => {},
            Err(e) => {
                proof {
                    lemma_drew_chain(u0, up, allocator.upcoming(), &orig.tables(), &prev.tables(), &mapper.tables(), 3 * i, 3);
                    assert forall|g: u64| orig.tables().holds_table(g) implies #[trigger] mapper.tables().holds_table(g)
                        && mapper.tables().level_of(g) == orig.tables().level_of(g) by {
                        assert(prev.tables().holds_table(g));
                    }
                    assert(tables_kept(&orig, mapper));
                }
                result = Err(e);
                break;
            },
        }
        proof {
            lemma_drew_chain(u0, up, allocator.upcoming(), &orig.tables(), &prev.tables(), &mapper.tables(), 3 * i, 3);
            assert(identity_mapped_one(&prev, mapper, n, flags@));
            lemma_identity_step(&prev, mapper, list, i as int);
            assert forall|g: u64| orig.tables().holds_table(g) implies #[trigger] mapper.tables().holds_table(g)
                && mapper.tables().level_of(g) == orig.tables().level_of(g) by {
                assert(prev.tables().holds_table(g));
            }
            assert(tables_kept(&orig, mapper));
        }
        i = i + 1;
    }
    result
}

/// After the remap: the frames of `list` are identity-mapped in `mapped`, and `after` is
/// `mapped` with the page of `guard` unmapped.
proof fn lemma_guard_unmapped(
    mapped: &TableMapper,
    after: &TableMapper,
    list: Seq<(u64, u64)>,
    guard: u64,
)
    requires
        identity_mapped(mapped, list, list.len() as int),
        forall|m: u64| #[trigger]
            after.translate_page_of(m) == if same_slot(guard, m) {
                None
            } else {
                mapped.translate_page_of(m)
            },
        forall|m: u64| !same_slot(guard, m) ==> #[trigger] after.leaf_entry_of(m) == mapped.leaf_entry_of(m),
        after.leaf_entry_of(guard) == Some(0u64),
    ensures
        forall|m: u64| #[trigger]
            after.translate_page_of(m) == if same_slot(guard, m) {
                None
            } else {
                identity_target(list, list.len() as int, m)
            },
        forall|k: int|
            0 <= k < list.len() ==> #[trigger] after.leaf_entry_of(list[k].0) == if same_slot(
                list[k].0,
                guard,
            ) {
                Some(0u64)
            } else {
                Some(entry_value(list[k].0, list[k].1 | PRESENT))
            },
{
    reveal(identity_mapped);
    assert forall|k: int|
        0 <= k < list.len() implies #[trigger] after.leaf_entry_of(list[k].0) == if same_slot(
        list[k].0,
        guard,
    ) {
        Some(0u64)
    } else {
        Some(entry_value(list[k].0, list[k].1 | PRESENT))
    } by {
        if same_slot(list[k].0, guard) {
            assert(after.leaf_entry_of(list[k].0) == after.leaf_entry_of(guard));
        }
    }
}

/// A page in the slot of an identity-mapped frame is mapped through four levels of tables.
proof fn lemma_guard_mapped(mapper: &TableMapper, list: Seq<(u64, u64)>, guard: u64)
    requires
        identity_mapped(mapper, list, list.len() as int),
        exists|k: int| 0 <= k < list.len() && same_slot(#[trigger] list[k].0, guard),
        forall|k: int| 0 <= k < list.len() ==> (#[trigger] list[k]).0 < MAX_FRAME_NUMBER,
        forall|k: int| 0 <= k < list.len() ==> (#[trigger] list[k]).1 & !ALL_FLAGS == 0,
    ensures
        translate_normal(&mapper.tables(), mapper.top(), guard) is Some,
{
    reveal(identity_mapped);
    let k = choose|k: int| 0 <= k < list.len() && same_slot(#[trigger] list[k].0, guard);
    let fl = list[k].1 | PRESENT;
    lemma_flag_bits();
    assert(PRESENT & !ALL_FLAGS == 0) by (bit_vector);
    assert(fl & !ALL_FLAGS == 0);
    lemma_entry_value(list[k].0, fl);
    lemma_table_entry_flags();
    assert(mapper.leaf_entry_of(list[k].0) == Some(entry_value(list[k].0, fl)));
    assert(mapper.leaf_entry_of(guard) == mapper.leaf_entry_of(list[k].0));
}

/// Whether pages `n` and `m` share a slot.
fn same_slot_exec(n: u64, m: u64) -> (r: bool)
    ensures
        r == same_slot(n, m),
{
    let (a, b) = (Page { number: n }, Page { number: m });
    a.p4_index() == b.p4_index() && a.p3_index() == b.p3_index() && a.p2_index() == b.p2_index()
        && a.p1_index() == b.p1_index()
}

/// Whether `remap_the_kernel` can remap the kernel of `boot_info` while the level-4 table
/// in frame `active_top` is active (see `remap_ready`).
pub fn is_remap_ready(boot_info: &BootInformation, active_top: u64) -> (r: bool)
    ensures
        r == remap_ready(boot_info, active_top),
{
    let sections = match &boot_info.elf_sections {
        Some(sections) => sections,
        None => {
            return false;
        },
    };
    if boot_info.end_address < 1 {
        return false;
    }
    let ghost secs = boot_sections(boot_info);
    let mut s: usize = 0;
    while s < sections.len()
        invariant
            secs == sections@,
            secs == boot_sections(boot_info),
            s <= secs.len(),
            forall|k: int|
                0 <= k < s && (#[trigger] secs[k]).is_allocated_spec() ==> secs[k].start_address
                    % PAGE_SIZE == 0 && secs[k].end_address >= 1,
        decreases secs.len() - s,
    {
        let section = &sections[s];
        if section.is_allocated() && (section.start_address % PAGE_SIZE != 0
            || section.end_address < 1) {
            assert(boot_sections(boot_info)[s as int] == *section);
            return false;
        }
        s = s + 1;
    }
    let mappings = kernel_mappings_of(boot_info);
    let ghost list = kernel_mappings(boot_info);
    let mut k: usize = 0;
    while k < mappings.len()
        invariant
            flags_view(mappings@) == list,
            list == kernel_mappings(boot_info),
            list.len() == mappings@.len(),
            k <= list.len(),
            forall|j: int| 0 <= j < k ==> (#[trigger] list[j]).0 < MAX_FRAME_NUMBER,
        decreases list.len() - k,
    {
        if mappings[k].0 >= MAX_FRAME_NUMBER {
            assert(list[k as int].0 == mappings@[k as int].0);
            assert(kernel_mappings(boot_info)[k as int].0 >= MAX_FRAME_NUMBER);
            return false;
        }
        assert(list[k as int].0 == mappings@[k as int].0);
        k = k + 1;
    }
    let mut k: usize = 0;
    while k < mappings.len()
        invariant
            flags_view(mappings@) == list,
            list == kernel_mappings(boot_info),
            list.len() == mappings@.len(),
            k <= list.len(),
            forall|i: int, j: int| 0 <= i < j < list.len() && i < k ==> !same_slot(#[trigger] list[i].0, #[trigger] list[j].0),
        decreases list.len() - k,
    {
        let mut j: usize = k + 1;
        while j < mappings.len()
            invariant
                flags_view(mappings@) == list,
                list == kernel_mappings(boot_info),
            list == kernel_mappings(boot_info),
                list.len() == mappings@.len(),
                k < list.len(),
                k + 1 <= j <= list.len(),
                forall|i: int, j2: int| 0 <= i < j2 < list.len() && i < k ==> !same_slot(#[trigger] list[i].0, #[trigger] list[j2].0),
                forall|j2: int| k < j2 < j ==> !same_slot(list[k as int].0, #[trigger] list[j2].0),
            decreases list.len() - j,
        {
            assert(list[k as int].0 == mappings@[k as int].0 && list[j as int].0 == mappings@[j as int].0);
            if same_slot_exec(mappings[k].0, mappings[j].0) {
                assert(same_slot(kernel_mappings(boot_info)[k as int].0, kernel_mappings(boot_info)[j as int].0));
                assert(!slots_distinct(kernel_mappings(boot_info)));
                return false;
            }
            j = j + 1;
        }
        k = k + 1;
    }
    assert(slots_distinct(kernel_mappings(boot_info)));
    let mut k: usize = 0;
    while k < mappings.len()
        invariant
            flags_view(mappings@) == list,
            list == kernel_mappings(boot_info),
            list.len() == mappings@.len(),
            k <= list.len(),
            forall|j: int| 0 <= j < k ==> !same_slot(#[trigger] list[j].0, active_top),
            remap_ready(boot_info, active_top) <==> exists|j: int|
                0 <= j < list.len() && same_slot(#[trigger] list[j].0, active_top),
        decreases list.len() - k,
    {
        assert(list[k as int].0 == mappings@[k as int].0);
        if same_slot_exec(mappings[k].0, active_top) {
            assert(same_slot(list[k as int].0, active_top));
            return true;
        }
        k = k + 1;
    }
    false
}

/// Maps the kernel into a fresh hierarchy and makes it active: every frame of
/// `kernel_mappings(boot_info)` is identity-mapped with its flags (and `PRESENT`), nothing
/// else is mapped, and the page of the level-4 table that was active before is left
/// unmapped as a guard page. New tables come from `allocator`.
pub fn remap_the_kernel<A: FrameAllocator>(
    allocator: &mut A,
    boot_info: &BootInformation,
    active_table: ActivePageTable,
) -> (r: Result<ActivePageTable, MapToError>)
    requires
        old(allocator).inv(),
        active_table.mapper_spec().wf(),
        remap_ready(boot_info, active_table.mapper_spec().top()),
    ensures
        final(allocator).inv(),
        r matches Ok(t) ==> {
            let list = kernel_mappings(boot_info);
            let guard = active_table.mapper_spec().top();
            &&& t.mapper_spec().wf()
            &&& !active_table.mapper_spec().tables().holds_table(t.mapper_spec().top())
            &&& forall|m: u64| #[trigger]
                t.mapper_spec().translate_page_of(m) == if same_slot(guard, m) {
                    None
                } else {
                    identity_target(list, list.len() as int, m)
                }
            &&& forall|k: int|
                0 <= k < list.len() ==> #[trigger] t.mapper_spec().leaf_entry_of(list[k].0) == if same_slot(
                    list[k].0,
                    guard,
                ) {
                    Some(0u64)
                } else {
                    Some(entry_value(list[k].0, list[k].1 | PRESENT))
                }
            &&& t.mapper_spec().top() == old(allocator).upcoming()[0].number
        },
        old(allocator).upcoming().len() == 0 ==> r matches Err(MapToError::FrameAllocationFailed),
        fresh_frames(old(allocator).upcoming(), 1 + 3 * kernel_mappings(boot_info).len() as int, &active_table.mapper_spec().tables()) ==> r is Ok,
{
    let mut active_table = active_table;
    let ghost list = kernel_mappings(boot_info);
    let ghost guard = active_table.mapper.top();
    let ghost u0 = allocator.upcoming();
    let ghost t0 = active_table.mapper.tables();
    let frame = match allocator.allocate_frame() {
        Some(frame) => frame,
        None => {
            return Err(MapToError::FrameAllocationFailed);
        },
    };
    if frame.number >= MAX_FRAME_NUMBER {
        return Err(MapToError::InvalidFrame);
    }
    if active_table.mapper.memory().has_table(frame.number) {
        return Err(MapToError::FrameInUse);
    }
    let ghost before = active_table.mapper;
    let new_table = InactivePageTable::new(frame, &mut active_table);
    let mappings = kernel_mappings_of(boot_info);
    proof {
        lemma_drew_first_into_table(u0, &t0, &active_table.mapper.tables());
        assert(u0.drop_first() =~= u0.skip(1));
        assert(mappings@.len() == list.len());
        if fresh_frames(u0, 1 + 3 * list.len() as int, &t0) {
            assert(fresh_frames(allocator.upcoming(), 3 * mappings@.len() as int, &active_table.mapper.tables()));
        }
        assert(before.tables().holds_table(guard) && before.tables().level_of(guard) == 4);
        assert(active_table.mapper.tables().holds_table(guard));
        assert forall|k: int| 0 <= k < mappings@.len() implies (#[trigger] mappings@[k]).0 < MAX_FRAME_NUMBER by {
            assert(list[k].0 == mappings@[k].0);
        }
    }
    // Map into the new hierarchy while the old one stays active.
    let backup = active_table.mapper.top_table_frame();
    active_table.mapper.set_top(new_table.frame.number);
    match identity_map_all(&mut active_table.mapper, &mappings, allocator) {
        Ok(()) => {},
        Err(e) => {
            return Err(e);
        },
    }
    proof {
        assert(active_table.mapper.tables().holds_table(guard));
    }
    let ghost filled = active_table.mapper;
    active_table.mapper.set_top(backup);
    let old_table = active_table.switch(new_table);
    // The old level-4 table's page becomes a guard page.
    let old_top_page = Page::containing_address(old_table.frame().start_address());
    proof {
        active_table.mapper.lemma_same_parts(&filled);
        assert forall|k: int| 0 <= k < list.len() implies (#[trigger] list[k]).1 & !ALL_FLAGS == 0 by {
            assert(list[k].1 == mappings@[k].1@);
        }
        lemma_guard_mapped(&active_table.mapper, list, guard);
    }
    let ghost mapped = active_table.mapper;
    active_table.mapper.unmap(old_top_page, allocator);
    proof {
        lemma_guard_unmapped(&mapped, &active_table.mapper, list, guard);
    }
    Ok(active_table)
}

} // verus!

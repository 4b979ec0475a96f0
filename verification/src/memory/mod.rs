//! Physical frames and their allocators.

use vstd::prelude::*;

use crate::paging::entry::{EntryFlags, NO_EXECUTE, PRESENT, WRITABLE};
use crate::paging::mapper::{
    leaf_table, lemma_can_map_unmapped, lemma_near_pages_distinct_slots, lemma_same_slot_same_translation,
    mapped_with, same_slot, MapToError, PageMapLevel4Mapper,
};
use crate::paging::page::{Page, PageIter};
use crate::paging::physical::PhysicalMemory;
use crate::paging::{MAX_FRAME_NUMBER, PAGE_SIZE};

use self::area_frame_allocator::{
    first_usable_from, usable_region_frames, AreaFrameAllocator, MemoryRegion,
};
use self::stack_allocator::{stack_ready, Stack, StackAllocator, MAX_STACK_PAGE};

pub mod area_frame_allocator;
pub mod stack_allocator;
pub mod usable_frame_allocator;

verus! {

/// A physical frame of `PAGE_SIZE` bytes.
#[derive(Clone, Copy, PartialEq, Eq, Structural, Debug)]
pub struct Frame {
    pub number: u64,
}

impl Frame {
    pub fn containing_address(address: u64) -> (r: Frame)
        ensures
            r.number == address / PAGE_SIZE,
    {
        Frame { number: address / PAGE_SIZE }
    }

    pub fn start_address(&self) -> (r: u64)
        requires
            self.number * PAGE_SIZE <= u64::MAX,
        ensures
            r == self.number * PAGE_SIZE,
    {
        self.number * PAGE_SIZE
    }
}

/// The frame that holds the start address of frame `n` is frame `n`.
pub proof fn lemma_frame_address_round_trip(n: u64)
    requires
        n * PAGE_SIZE <= u64::MAX,
    ensures
        ((n * PAGE_SIZE) as u64) / PAGE_SIZE == n,
{
    assert((n * 4096) / 4096 == n) by (nonlinear_arith);
}

} // verus!

verus! {

/// A source of free physical frames.
pub trait FrameAllocator {
    /// The allocator's own consistency condition.
    spec fn inv(&self) -> bool;

    /// The frames the allocator will hand out, in the order it hands them out.
    spec fn upcoming(&self) -> Seq<Frame>;

    /// The next frame of `upcoming`, which then no longer comes; `None` when the allocator
    /// has none left.
    fn allocate_frame(&mut self) -> (r: Option<Frame>)
        requires
            old(self).inv(),
        ensures
            final(self).inv(),
            old(self).upcoming().len() == 0 ==> r is None && final(self).upcoming() == old(self).upcoming(),
            old(self).upcoming().len() > 0 ==> r == Some(old(self).upcoming()[0]) && final(self).upcoming() == old(self).upcoming().drop_first(),
    ;
}

/// The first `k` frames of `frames` can hold new page tables beside those of `mem`: each
/// has an address an entry can hold, none holds a table yet, and no two are the same.
pub open spec fn fresh_frames(frames: Seq<Frame>, k: int, mem: &PhysicalMemory) -> bool {
    &&& k <= frames.len()
    &&& forall|i: int|
        0 <= i < k ==> (#[trigger] frames[i]).number < MAX_FRAME_NUMBER && !mem.holds_table(
            frames[i].number,
        )
    &&& forall|i: int, j: int|
        0 <= i < j < k ==> (#[trigger] frames[i]).number != (#[trigger] frames[j]).number
}

/// Going from tables `m0` to `m1`, at most `bound` frames were drawn from the front of
/// `before`, leaving `after`, and new tables were put only in drawn frames: of the first `k`
/// frames of `before`, if fresh for `m0`, those not drawn are fresh for `m1`.
pub open spec fn drew_frames(
    before: Seq<Frame>,
    after: Seq<Frame>,
    m0: &PhysicalMemory,
    m1: &PhysicalMemory,
    bound: int,
) -> bool {
    &&& after.len() <= before.len()
    &&& before.len() - after.len() <= bound
    &&& after == before.skip(before.len() - after.len())
    &&& forall|k: int|
        #[trigger] fresh_frames(before, k, m0) ==> fresh_frames(
            after,
            k - (before.len() - after.len()),
            m1,
        )
}

/// Fewer frames than fresh ones are fresh too.
pub proof fn lemma_fresh_fewer(frames: Seq<Frame>, k: int, j: int, mem: &PhysicalMemory)
    requires
        fresh_frames(frames, k, mem),
        j <= k,
    ensures
        fresh_frames(frames, j, mem),
{
}

/// Behind a fresh first frame, the others are fresh.
pub proof fn lemma_fresh_rest(frames: Seq<Frame>, k: int, mem: &PhysicalMemory)
    requires
        fresh_frames(frames, k, mem),
        1 <= k,
    ensures
        fresh_frames(frames.drop_first(), k - 1, mem),
{
    assert forall|i: int, j: int| 0 <= i < j < k - 1 implies (#[trigger] frames.drop_first()[i]).number
        != (#[trigger] frames.drop_first()[j]).number by {
        assert(frames[i + 1].number != frames[j + 1].number);
    }
}

/// Drawing `d` frames while the frames holding tables stay the same.
pub proof fn lemma_drew_keep(frames: Seq<Frame>, d: int, m0: &PhysicalMemory, m1: &PhysicalMemory)
    requires
        0 <= d <= frames.len(),
        forall|g: u64| #[trigger] m1.holds_table(g) == m0.holds_table(g),
    ensures
        drew_frames(frames, frames.skip(d), m0, m1, d),
{
    let after = frames.skip(d);
    assert(after =~= frames.skip(frames.len() - after.len()));
    assert forall|k: int| #[trigger] fresh_frames(frames, k, m0) implies fresh_frames(after, k - d, m1) by {
        assert forall|i: int| 0 <= i < k - d implies (#[trigger] after[i]).number < MAX_FRAME_NUMBER
            && !m1.holds_table(after[i].number) by {
            assert(after[i] == frames[i + d]);
        }
        assert forall|i: int, j: int| 0 <= i < j < k - d implies (#[trigger] after[i]).number
            != (#[trigger] after[j]).number by {
            assert(frames[i + d].number != frames[j + d].number);
        }
    }
}

/// Drawing the first frame and putting a table in it.
pub proof fn lemma_drew_first_into_table(frames: Seq<Frame>, m0: &PhysicalMemory, m1: &PhysicalMemory)
    requires
        frames.len() > 0,
        forall|g: u64| #[trigger] m1.holds_table(g) ==> m0.holds_table(g) || g == frames[0].number,
    ensures
        drew_frames(frames, frames.skip(1), m0, m1, 1),
{
    let after = frames.skip(1);
    assert(after =~= frames.skip(frames.len() - after.len()));
    assert forall|k: int| #[trigger] fresh_frames(frames, k, m0) implies fresh_frames(after, k - 1, m1) by {
        assert forall|i: int| 0 <= i < k - 1 implies (#[trigger] after[i]).number < MAX_FRAME_NUMBER
            && !m1.holds_table(after[i].number) by {
            assert(after[i] == frames[i + 1]);
            assert(frames[0].number != frames[i + 1].number);
        }
        assert forall|i: int, j: int| 0 <= i < j < k - 1 implies (#[trigger] after[i]).number
            != (#[trigger] after[j]).number by {
            assert(frames[i + 1].number != frames[j + 1].number);
        }
    }
}

/// Two drawings in a row are one drawing.
pub proof fn lemma_drew_chain(
    a: Seq<Frame>,
    b: Seq<Frame>,
    c: Seq<Frame>,
    ma: &PhysicalMemory,
    mb: &PhysicalMemory,
    mc: &PhysicalMemory,
    x: int,
    y: int,
)
    requires
        drew_frames(a, b, ma, mb, x),
        drew_frames(b, c, mb, mc, y),
    ensures
        drew_frames(a, c, ma, mc, x + y),
{
    assert(c =~= a.skip(a.len() - c.len()));
    assert forall|k: int| #[trigger] fresh_frames(a, k, ma) implies fresh_frames(
        c,
        k - (a.len() - c.len()),
        mc,
    ) by {
        assert(fresh_frames(b, k - (a.len() - b.len()), mb));
    }
}

/// Drawing nothing.
pub proof fn lemma_drew_none(frames: Seq<Frame>, m: &PhysicalMemory, bound: int)
    requires
        0 <= bound,
    ensures
        drew_frames(frames, frames, m, m, bound),
{
    assert(frames =~= frames.skip(0));
}

} // verus!

verus! {

/// Start of the kernel heap (1 GiB).
pub const HEAP_START: u64 = 0o_000_001_000_000_0000;

/// Size of the kernel heap: 500 KiB.
pub const HEAP_SIZE: u64 = 500 * 1024;

/// The first page of the heap.
pub open spec fn heap_first_page() -> u64 {
    HEAP_START / PAGE_SIZE
}

/// The last page of the heap.
pub open spec fn heap_last_page() -> u64 {
    ((HEAP_START + HEAP_SIZE - 1) / (PAGE_SIZE as int)) as u64
}

/// The page table, the frame allocator and the stack allocator of the kernel.
pub struct MemoryController {
    page_table: PageMapLevel4Mapper,
    frame_allocator: AreaFrameAllocator,
    stack_allocator: StackAllocator,
}

impl MemoryController {
    pub closed spec fn page_table_spec(&self) -> PageMapLevel4Mapper {
        self.page_table
    }

    /// The page table of the kernel.
    pub fn page_table(&self) -> (r: &PageMapLevel4Mapper)
        ensures
            *r == self.page_table_spec(),
    {
        &self.page_table
    }

    pub closed spec fn stack_range(&self) -> PageIter {
        self.stack_allocator.range_spec()
    }

    /// The frames the frame allocator will hand out, in order.
    pub closed spec fn frames_left(&self) -> Seq<Frame> {
        self.frame_allocator.upcoming()
    }

    /// `count` stacks of one page can be handed out one after the other: the stack range has
    /// room for them and their guard pages, each of their pages can be mapped, and the frame
    /// allocator has four fresh frames per stack.
    pub open spec fn one_page_stacks_ready(&self, count: int) -> bool {
        let start = self.stack_range().start.number;
        &&& start + 2 * count <= self.stack_range().end.number
        &&& forall|n: u64|
            start < n < start + 2 * count && (n - start) % 2 == 1
                ==> #[trigger] self.page_table_spec().can_map(n)
        &&& fresh_frames(self.frames_left(), 4 * count, &self.page_table_spec().tables())
    }

    pub closed spec fn wf(&self) -> bool {
        &&& self.page_table.wf()
        &&& self.frame_allocator.inv()
        &&& self.stack_allocator.range_spec().end.number < MAX_STACK_PAGE
    }

    /// A stack of `size_in_pages` pages, mapped, above an unmapped guard page.
    pub fn alloc_stack(&mut self, size_in_pages: u64) -> (r: Option<Stack>)
        requires
            old(self).wf(),
        ensures
            final(self).wf(),
            forall|n: u64|
                #[trigger] old(self).page_table_spec().translate_page_of(n) is Some ==> final(self).page_table_spec().translate_page_of(n) == old(self).page_table_spec().translate_page_of(n),
            (size_in_pages == 0 || old(self).stack_range().start.number + size_in_pages > old(self).stack_range().end.number) ==> r is None && final(self).stack_range() == old(self).stack_range()
                && final(self).frames_left() == old(self).frames_left() && final(self).page_table_spec() == old(self).page_table_spec(),
            forall|m: u64|
                (forall|n: u64|
                    old(self).stack_range().start.number < n <= old(self).stack_range().start.number
                        + size_in_pages ==> !same_slot(n, m)) ==> #[trigger] final(self).page_table_spec().translate_page_of(m)
                    == old(self).page_table_spec().translate_page_of(m),
            r matches Some(stack) ==> {
                let first = old(self).stack_range().start.number + 1;
                &&& stack.bottom_spec() == first * PAGE_SIZE
                &&& stack.top_spec() == (first + size_in_pages) * PAGE_SIZE
                &&& final(self).stack_range().start.number == first + size_in_pages
                &&& forall|n: u64|
                    first <= n < first + size_in_pages ==> #[trigger] final(self).page_table_spec().translate_page_of(n) is Some
                &&& forall|n: u64|
                    first <= n < first + size_in_pages ==> #[trigger] mapped_with(
                        &final(self).page_table_spec(),
                        n,
                        PRESENT | WRITABLE | NO_EXECUTE,
                    )
                &&& size_in_pages < 0x10_0000_0000 ==> final(self).page_table_spec().translate_page_of(
                    old(self).stack_range().start.number,
                ) == old(self).page_table_spec().translate_page_of(old(self).stack_range().start.number)
            },
            final(self).stack_range().end == old(self).stack_range().end,
            forall|m: u64|
                (forall|n: u64|
                    old(self).stack_range().start.number < n <= old(self).stack_range().start.number
                        + size_in_pages ==> !same_slot(n, m)) ==> #[trigger] final(self).page_table_spec().can_map(m)
                    == old(self).page_table_spec().can_map(m),
            drew_frames(old(self).frames_left(), final(self).frames_left(), &old(self).page_table_spec().tables(), &final(self).page_table_spec().tables(), 4 * size_in_pages),
            stack_ready(&old(self).page_table_spec(), old(self).stack_range(), old(self).frames_left(), size_in_pages) ==> r is Some,
    {
        let ghost pt0 = self.page_table;
        let r = self.stack_allocator.alloc_stack(
            &mut self.page_table,
            &mut self.frame_allocator,
            size_in_pages,
        );
        proof {
            if r is None && self.page_table.tables() == pt0.tables() {
                self.page_table.lemma_same_parts(&pt0);
            }
        }
        r
    }
}

/// Where `count` one-page stacks are ready, the first of them is.
pub proof fn lemma_first_stack_ready(c: &MemoryController, count: int)
    requires
        c.one_page_stacks_ready(count),
        1 <= count,
    ensures
        stack_ready(&c.page_table_spec(), c.stack_range(), c.frames_left(), 1),
{
    let start = c.stack_range().start.number;
    assert((start + 1 - start) % 2 == 1);
    lemma_fresh_fewer(c.frames_left(), 4 * count, 4, &c.page_table_spec().tables());
}

/// Once the first of `count` ready one-page stacks is handed out, the other `count - 1` are
/// ready.
pub proof fn lemma_next_stacks_ready(a: &MemoryController, b: &MemoryController, count: int)
    requires
        a.one_page_stacks_ready(count),
        1 <= count < 0x1_0000_0000,
        b.stack_range().start.number == a.stack_range().start.number + 2,
        b.stack_range().end == a.stack_range().end,
        drew_frames(a.frames_left(), b.frames_left(), &a.page_table_spec().tables(), &b.page_table_spec().tables(), 4),
        forall|m: u64|
            (forall|n: u64|
                a.stack_range().start.number < n <= a.stack_range().start.number + 1 ==> !same_slot(n, m))
                ==> #[trigger] b.page_table_spec().can_map(m) == a.page_table_spec().can_map(m),
    ensures
        b.one_page_stacks_ready(count - 1),
{
    let s = a.stack_range().start.number;
    let u = a.frames_left();
    let v = b.frames_left();
    assert(fresh_frames(v, 4 * count - (u.len() - v.len()), &b.page_table_spec().tables()));
    lemma_fresh_fewer(v, 4 * count - (u.len() - v.len()), 4 * (count - 1), &b.page_table_spec().tables());
    assert forall|n: u64|
        s + 2 < n < s + 2 + 2 * (count - 1) && (n - (s + 2)) % 2 == 1 implies #[trigger] b.page_table_spec().can_map(n) by {
        assert((n - s) % 2 == 1);
        assert(a.page_table_spec().can_map(n));
        assert forall|k: u64| s < k <= s + 1 implies !same_slot(k, n) by {
            lemma_near_pages_distinct_slots(k, n);
        }
    }
}

/// Maps `page` to a frame from `frame_allocator` with `flags` (and `PRESENT`); the tables
/// missing on the way come from `frame_allocator` too.
pub fn map_page<A: FrameAllocator>(
    mapper: &mut PageMapLevel4Mapper,
    page: Page,
    flags: EntryFlags,
    frame_allocator: &mut A,
) -> (r: Result<(), MapToError>)
    requires
        old(mapper).wf(),
        old(frame_allocator).inv(),
    ensures
        final(mapper).wf(),
        final(frame_allocator).inv(),
        final(mapper).top() == old(mapper).top(),
        !old(mapper).can_map(page.number) ==> r is Err,
        old(mapper).can_map(page.number) ==> r != Err::<(), MapToError>(MapToError::PageUnavailable),
        r is Ok ==> final(mapper).translate_page_of(page.number) is Some,
        r is Ok ==> forall|m: u64| #[trigger]
            final(mapper).translate_page_of(m) == if same_slot(page.number, m) {
                final(mapper).translate_page_of(page.number)
            } else {
                old(mapper).translate_page_of(m)
            },
        r is Err ==> forall|m: u64| #[trigger]
            final(mapper).translate_page_of(m) == old(mapper).translate_page_of(m),
        drew_frames(old(frame_allocator).upcoming(), final(frame_allocator).upcoming(), &old(mapper).tables(), &final(mapper).tables(), 4),
        old(frame_allocator).upcoming().len() == 0 ==> r == Err::<(), MapToError>(MapToError::FrameAllocationFailed),
        old(frame_allocator).upcoming().len() > 0 && old(frame_allocator).upcoming()[0].number >= MAX_FRAME_NUMBER
            ==> r == Err::<(), MapToError>(MapToError::InvalidFrame),
        old(mapper).can_map(page.number) && old(frame_allocator).upcoming().len() > 0
            && old(frame_allocator).upcoming()[0].number < MAX_FRAME_NUMBER && fresh_frames(
            old(frame_allocator).upcoming().drop_first(),
            3,
            &old(mapper).tables(),
        ) ==> r is Ok,
        r is Ok ==> final(mapper).translate_page_of(page.number) == Some(old(frame_allocator).upcoming()[0].number),
        old(mapper).can_map(page.number) && old(frame_allocator).upcoming().len() == 1
            && old(frame_allocator).upcoming()[0].number < MAX_FRAME_NUMBER && leaf_table(
            &old(mapper).tables(),
            old(mapper).top(),
            page.number,
        ) is None ==> r == Err::<(), MapToError>(MapToError::FrameAllocationFailed),
{
    let ghost u0 = frame_allocator.upcoming();
    let frame = match frame_allocator.allocate_frame() {
        Some(frame) => frame,
        None => {
            proof {
                lemma_drew_none(u0, &mapper.tables(), 4);
            }
            return Err(MapToError::FrameAllocationFailed);
        },
    };
    proof {
        assert(u0.drop_first() =~= u0.skip(1));
        lemma_drew_keep(u0, 1, &mapper.tables(), &mapper.tables());
    }
    if frame.number >= MAX_FRAME_NUMBER {
        return Err(MapToError::InvalidFrame);
    }
    if !mapper.can_map_page(page) {
        return Err(MapToError::PageUnavailable);
    }
    let ghost m1 = *mapper;
    let r = mapper.map_to(page, frame, flags, frame_allocator);
    proof {
        lemma_drew_chain(u0, u0.skip(1), frame_allocator.upcoming(), &m1.tables(), &m1.tables(), &mapper.tables(), 1, 3);
    }
    r
}

/// Maps the heap with frames of the first usable region of `memory_map`, and sets the
/// stacks up in the hundred and one pages above it.
pub fn init(memory_map: &Vec<MemoryRegion>, page_table: PageMapLevel4Mapper) -> (r: Result<
    MemoryController,
    MapToError,
>)
    requires
        page_table.wf(),
        first_usable_from(memory_map@, 0) >= 0,
    ensures
        r matches Ok(controller) ==> {
            &&& controller.wf()
            &&& controller.stack_range().start.number == heap_last_page() + 1
            &&& controller.stack_range().end.number == heap_last_page() + 101
            &&& forall|n: u64|
                heap_first_page() <= n <= heap_last_page() ==> #[trigger] controller.page_table_spec().translate_page_of(n) is Some
            &&& forall|n: u64|
                heap_first_page() <= n <= heap_last_page() ==> #[trigger] mapped_with(
                    &controller.page_table_spec(),
                    n,
                    PRESENT | WRITABLE | NO_EXECUTE,
                )
            &&& forall|n: u64|
                #[trigger] page_table.translate_page_of(n) is Some ==> controller.page_table_spec().translate_page_of(n) == page_table.translate_page_of(n)
            &&& forall|m: u64|
                (forall|n: u64| heap_first_page() <= n <= heap_last_page() ==> !same_slot(n, m))
                    ==> #[trigger] controller.page_table_spec().translate_page_of(m) == page_table.translate_page_of(m)
            &&& drew_frames(usable_region_frames(memory_map@), controller.frames_left(), &page_table.tables(), &controller.page_table_spec().tables(), 4 * (heap_last_page() - heap_first_page() + 1))
        },
        usable_region_frames(memory_map@).len() == 0 ==> r matches Err(MapToError::FrameAllocationFailed),
        (forall|n: u64| heap_first_page() <= n <= heap_last_page() ==> #[trigger] page_table.can_map(n))
            && fresh_frames(usable_region_frames(memory_map@), 4 * (heap_last_page() - heap_first_page() + 1), &page_table.tables()) ==> r is Ok,
{
    let mut frame_allocator = AreaFrameAllocator::new(memory_map);
    let ghost u0 = frame_allocator.upcoming();
    let ghost ready = (forall|n: u64| heap_first_page() <= n <= heap_last_page() ==> #[trigger] page_table.can_map(n))
        && fresh_frames(u0, 4 * (heap_last_page() - heap_first_page() + 1), &page_table.tables());
    proof {
        lemma_drew_none(u0, &page_table.tables(), 0);
    }
    let mut table = page_table;
    let heap_start_page = Page::containing_address(HEAP_START);
    let heap_end_page = Page::containing_address(HEAP_START + HEAP_SIZE - 1);
    let flags = EntryFlags::present().union(EntryFlags::writable()).union(EntryFlags::no_execute());
    let ghost initial = table;
    let mut page = heap_start_page;
    while page.number <= heap_end_page.number
        invariant
            table.wf(),
            frame_allocator.inv(),
            heap_start_page.number == heap_first_page(),
            heap_end_page.number == heap_last_page(),
            heap_start_page.number <= page.number <= heap_end_page.number + 1,
            forall|n: u64|
                #[trigger] initial.translate_page_of(n) is Some ==> table.translate_page_of(n)
                    == initial.translate_page_of(n),
            forall|n: u64|
                heap_start_page.number <= n < page.number ==> #[trigger] table.translate_page_of(n) is Some,
            forall|m: u64|
                (forall|n: u64| heap_start_page.number <= n < page.number ==> !same_slot(n, m))
                    ==> #[trigger] table.translate_page_of(m) == initial.translate_page_of(m),
            u0 == usable_region_frames(memory_map@),
            initial == page_table,
            ready == ((forall|n: u64| heap_first_page() <= n <= heap_last_page() ==> #[trigger] initial.can_map(n))
                && fresh_frames(u0, 4 * (heap_last_page() - heap_first_page() + 1), &initial.tables())),
            drew_frames(u0, frame_allocator.upcoming(), &initial.tables(), &table.tables(), 4 * (page.number - heap_start_page.number)),
            ready ==> forall|n: u64| page.number <= n <= heap_end_page.number ==> #[trigger] table.can_map(n),
            page.number > heap_start_page.number ==> u0.len() > 0,
            flags@ == PRESENT | WRITABLE | NO_EXECUTE,
            forall|n: u64|
                heap_start_page.number <= n < page.number ==> #[trigger] mapped_with(
                    &table,
                    n,
                    PRESENT | WRITABLE | NO_EXECUTE,
                ),
        decreases heap_end_page.number + 1 - page.number,
    {
        let ghost up = frame_allocator.upcoming();
        let ghost before = table;
        proof {
            if ready {
                let k = 4 * (heap_last_page() - heap_first_page() + 1) - (u0.len() - up.len());
                assert(fresh_frames(up, k, &before.tables()));
                lemma_fresh_fewer(up, k, 4, &before.tables());
                lemma_fresh_rest(up, 4, &before.tables());
            }
        }
        let frame = match frame_allocator.allocate_frame() {
            Some(frame) => frame,
            None => {
                return Err(MapToError::FrameAllocationFailed);
            },
        };
        proof {
            assert(up.drop_first() =~= up.skip(1));
            lemma_drew_keep(up, 1, &before.tables(), &before.tables());
            lemma_drew_chain(u0, up, up.skip(1), &initial.tables(), &before.tables(), &before.tables(), 4 * (page.number - heap_start_page.number), 1);
        }
        if frame.number >= MAX_FRAME_NUMBER {
            return Err(MapToError::InvalidFrame);
        }
        if !table.can_map_page(page) {
            return Err(MapToError::PageUnavailable);
        }
        match table.map_to(page, frame, flags, &mut frame_allocator) {
            Ok(()) => {},
            Err(e) => {
                return Err(e);
            },
        }
        proof {
            lemma_drew_chain(u0, up.skip(1), frame_allocator.upcoming(), &initial.tables(), &before.tables(), &table.tables(), 4 * (page.number - heap_start_page.number) + 1, 3);
            let fl = flags@;
            assert(fl == PRESENT | WRITABLE | NO_EXECUTE ==> fl | PRESENT == fl) by (bit_vector);
            assert(mapped_with(&table, page.number, PRESENT | WRITABLE | NO_EXECUTE));
            assert forall|n: u64| heap_start_page.number <= n < page.number + 1 implies #[trigger] mapped_with(
                &table,
                n,
                PRESENT | WRITABLE | NO_EXECUTE,
            ) by {
                if n < page.number {
                    assert(mapped_with(&before, n, PRESENT | WRITABLE | NO_EXECUTE));
                    if same_slot(page.number, n) {
                        lemma_same_slot_same_translation(&before, page.number, n);
                        lemma_can_map_unmapped(&before, page.number);
                    }
                    assert(before.leaf_entry_of(n) is Some);
                }
            }
            if ready {
                assert forall|n: u64| page.number + 1 <= n <= heap_end_page.number implies #[trigger] table.can_map(n) by {
                    lemma_near_pages_distinct_slots(page.number, n);
                    assert(before.can_map(n));
                }
            }
        }
        assert forall|n: u64| heap_start_page.number <= n <= page.number implies #[trigger]
            table.translate_page_of(n) is Some by {
            if n < page.number {
                assert(before.translate_page_of(n) is Some);
            }
        }
        assert forall|n: u64| #[trigger] initial.translate_page_of(n) is Some implies table.translate_page_of(n)
            == initial.translate_page_of(n) by {
            assert(before.translate_page_of(n) == initial.translate_page_of(n));
        }
        assert forall|m: u64|
            (forall|n: u64| heap_start_page.number <= n < page.number + 1 ==> !same_slot(n, m))
                implies #[trigger] table.translate_page_of(m) == initial.translate_page_of(m) by {
            assert(!same_slot(page.number, m));
            assert(before.translate_page_of(m) == initial.translate_page_of(m));
        }
        page = Page { number: page.number + 1 };
    }
    let stack_alloc_start = heap_end_page.add(1);
    let stack_alloc_end = stack_alloc_start.add(100);
    let stack_alloc_range = Page::range_inclusive(stack_alloc_start, stack_alloc_end);
    let stack_allocator = StackAllocator::new(stack_alloc_range);
    Ok(MemoryController { page_table: table, frame_allocator, stack_allocator })
}

} // verus!

//! Kernel stacks carved out of a range of pages, each below an unmapped guard page.

use vstd::prelude::*;

use crate::memory::{
    drew_frames, fresh_frames, lemma_drew_chain, lemma_drew_none, lemma_fresh_fewer, lemma_fresh_rest,
    Frame, FrameAllocator,
};
use crate::paging::entry::{EntryFlags, NO_EXECUTE, PRESENT, WRITABLE};
use crate::paging::mapper::{
    lemma_can_map_unmapped, lemma_near_pages_distinct_slots, lemma_same_slot_same_translation,
    mapped_with, same_slot, PageMapLevel4Mapper,
};
use crate::paging::page::{Page, PageIter};
use crate::paging::PAGE_SIZE;

verus! {

/// Page numbers below this bound have start addresses, and the address after the page,
/// that fit 64 bits.
pub const MAX_STACK_PAGE: u64 = 0xf_ffff_ffff_fffe;

/// A stack from `bottom` (its lowest address) up to, not including, `top`.
#[derive(Debug)]
pub struct Stack {
    top: u64,
    bottom: u64,
}

impl Stack {
    /// A stack ends above where it starts.
    #[verifier::type_invariant]
    spec fn stack_inv(&self) -> bool {
        self.top > self.bottom
    }

    pub closed spec fn top_spec(&self) -> u64 {
        self.top
    }

    pub closed spec fn bottom_spec(&self) -> u64 {
        self.bottom
    }

    pub fn new(top: u64, bottom: u64) -> (r: Stack)
        requires
            top > bottom,
        ensures
            r.top_spec() == top,
            r.bottom_spec() == bottom,
    {
        Stack { top, bottom }
    }

    pub fn top(&self) -> (r: u64)
        ensures
            r == self.top_spec(),
            r > self.bottom_spec(),
    {
        proof {
            use_type_invariant(self);
        }
        self.top
    }

    pub fn bottom(&self) -> (r: u64)
        ensures
            r == self.bottom_spec(),
            r < self.top_spec(),
    {
        proof {
            use_type_invariant(self);
        }
        self.bottom
    }
}

/// A stack of `size` pages can be carved from `range` and mapped in `page_table` with frames
/// from `frames`: the size is positive and below 2^36 pages (the pages then lie in distinct
/// slots), the range has room for the stack above its guard page, each page of the stack can
/// be mapped, and the first four frames per page are fresh.
pub open spec fn stack_ready(
    page_table: &PageMapLevel4Mapper,
    range: PageIter,
    frames: Seq<Frame>,
    size: u64,
) -> bool {
    let start = range.start.number;
    &&& 0 < size < 0x10_0000_0000
    &&& start + size <= range.end.number
    &&& forall|n: u64| start < n <= start + size ==> #[trigger] page_table.can_map(n)
    &&& fresh_frames(frames, 4 * size, &page_table.tables())
}

/// Hands out stacks from a range of pages, lowest first.
pub struct StackAllocator {
    range: PageIter,
}

impl StackAllocator {
    /// The pages not handed out yet.
    pub closed spec fn range_spec(&self) -> PageIter {
        self.range
    }

    pub fn new(page_range: PageIter) -> (r: StackAllocator)
        ensures
            r.range_spec() == page_range,
    {
        StackAllocator { range: page_range }
    }

    /// A stack of `size_in_pages` mapped pages above a guard page, both taken from the
    /// range; `None` when the size is zero or the range is too short, and then nothing
    /// changes. `None` also when a page cannot be mapped (no frame left, or the page table
    /// refuses the page); pages mapped before stay mapped.
    pub fn alloc_stack<A: FrameAllocator>(
        &mut self,
        page_table: &mut PageMapLevel4Mapper,
        frame_allocator: &mut A,
        size_in_pages: u64,
    ) -> (r: Option<Stack>)
        requires
            old(page_table).wf(),
            old(frame_allocator).inv(),
            old(self).range_spec().end.number < MAX_STACK_PAGE,
        ensures
            final(page_table).wf(),
            final(page_table).top() == old(page_table).top(),
            final(frame_allocator).inv(),
            final(self).range_spec().end == old(self).range_spec().end,
            forall|n: u64|
                #[trigger] old(page_table).translate_page_of(n) is Some ==> final(page_table).translate_page_of(n) == old(page_table).translate_page_of(n),
            forall|m: u64|
                (forall|n: u64|
                    old(self).range_spec().start.number < n <= old(self).range_spec().start.number + size_in_pages
                        ==> !same_slot(n, m)) ==> #[trigger] final(page_table).translate_page_of(m)
                    == old(page_table).translate_page_of(m),
            forall|m: u64|
                (forall|n: u64|
                    old(self).range_spec().start.number < n <= old(self).range_spec().start.number + size_in_pages
                        ==> !same_slot(n, m)) ==> #[trigger] final(page_table).can_map(m)
                    == old(page_table).can_map(m),
            drew_frames(old(frame_allocator).upcoming(), final(frame_allocator).upcoming(), &old(page_table).tables(), &final(page_table).tables(), 4 * size_in_pages),
            stack_ready(old(page_table), old(self).range_spec(), old(frame_allocator).upcoming(), size_in_pages) ==> r is Some,
            (size_in_pages == 0 || old(self).range_spec().start.number + size_in_pages > old(self).range_spec().end.number) ==> r is None && final(self).range_spec() == old(self).range_spec() && final(page_table).tables() == old(page_table).tables()
                && final(frame_allocator).upcoming() == old(frame_allocator).upcoming(),
            r matches Some(stack) ==> {
                let first = old(self).range_spec().start.number + 1;
                &&& size_in_pages > 0
                &&& old(self).range_spec().start.number + size_in_pages <= old(self).range_spec().end.number
                &&& stack.bottom_spec() == first * PAGE_SIZE
                &&& stack.top_spec() == (first + size_in_pages) * PAGE_SIZE
                &&& final(self).range_spec().start.number == first + size_in_pages
                &&& forall|n: u64|
                    first <= n < first + size_in_pages ==> #[trigger] final(page_table).translate_page_of(n) is Some
                &&& forall|n: u64|
                    first <= n < first + size_in_pages ==> #[trigger] mapped_with(
                        final(page_table),
                        n,
                        PRESENT | WRITABLE | NO_EXECUTE,
                    )
                &&& size_in_pages < 0x10_0000_0000 ==> final(page_table).translate_page_of(
                    old(self).range_spec().start.number,
                ) == old(page_table).translate_page_of(old(self).range_spec().start.number)
            },
    {
        let ghost u0 = frame_allocator.upcoming();
        let ghost ready = stack_ready(old(page_table), old(self).range_spec(), u0, size_in_pages);
        proof {
            lemma_drew_none(u0, &page_table.tables(), 4 * size_in_pages);
        }
        if size_in_pages == 0 {
            return None;  // a zero sized stack makes no sense

        }
        // work on a copy of the range: it changes only on success
        let mut range = self.range;
        let guard_page = range.next();
        let stack_start = range.next();
        let stack_end = if size_in_pages == 1 {
            stack_start
        } else {
            // skip to the last page: the start page has been taken already
            range.nth(size_in_pages - 2)
        };
        match (guard_page, stack_start, stack_end) {
            (Some(_), Some(start), Some(end)) => {
                self.range = range;
                let flags = EntryFlags::present().union(EntryFlags::writable()).union(
                    EntryFlags::no_execute(),
                );
                let mut page = start;
                let ghost first = start.number;
                assert(start.number == old(self).range_spec().start.number + 1);
                assert(end.number == old(self).range_spec().start.number + size_in_pages);
                while page.number <= end.number
                    invariant
                        self.range_spec() == range,
                        range.end == old(self).range_spec().end,
                        range.start.number == end.number + 1,
                        size_in_pages > 0,
                        start.number == old(self).range_spec().start.number + 1,
                        end.number == old(self).range_spec().start.number + size_in_pages,
                        end.number <= old(self).range_spec().end.number,
                        page_table.wf(),
                        page_table.top() == old(page_table).top(),
                        frame_allocator.inv(),
                        first == start.number,
                        first <= page.number <= end.number + 1,
                        end.number < MAX_STACK_PAGE,
                        forall|n: u64|
                            #[trigger] old(page_table).translate_page_of(n) is Some
                                ==> page_table.translate_page_of(n) == old(page_table).translate_page_of(n),
                        forall|n: u64|
                            first <= n < page.number ==> #[trigger] page_table.translate_page_of(
                                n,
                            ) is Some,
                        size_in_pages < 0x10_0000_0000 ==> page_table.translate_page_of((first - 1) as u64)
                            == old(page_table).translate_page_of((first - 1) as u64),
                        forall|m: u64|
                            (forall|n: u64| first <= n < page.number ==> !same_slot(n, m))
                                ==> #[trigger] page_table.translate_page_of(m) == old(page_table).translate_page_of(m),
                        forall|m: u64|
                            (forall|n: u64| first <= n < page.number ==> !same_slot(n, m))
                                ==> #[trigger] page_table.can_map(m) == old(page_table).can_map(m),
                        u0 == old(frame_allocator).upcoming(),
                        ready == stack_ready(old(page_table), old(self).range_spec(), u0, size_in_pages),
                        drew_frames(u0, frame_allocator.upcoming(), &old(page_table).tables(), &page_table.tables(), 4 * (page.number - first)),
                        ready ==> forall|n: u64| page.number <= n <= end.number ==> #[trigger] page_table.can_map(n),
                        flags@ == PRESENT | WRITABLE | NO_EXECUTE,
                        forall|n: u64|
                            first <= n < page.number ==> #[trigger] mapped_with(
                                page_table,
                                n,
                                PRESENT | WRITABLE | NO_EXECUTE,
                            ),
                    decreases end.number + 1 - page.number,
                {
                    let ghost up = frame_allocator.upcoming();
                    let ghost before = *page_table;
                    proof {
                        if ready {
                            let k = 4 * size_in_pages - (u0.len() - up.len());
                            assert(fresh_frames(up, k, &before.tables()));
                            lemma_fresh_fewer(up, k, 4, &before.tables());
                            lemma_fresh_rest(up, 4, &before.tables());
                        }
                    }
                    if !page_table.can_map_page(page) {
                        return None;
                    }
                    match page_table.map(page, flags, frame_allocator) {
                        Ok(()) => {},
                        Err(_) => {
                            proof {
                                lemma_drew_chain(u0, up, frame_allocator.upcoming(), &old(page_table).tables(), &before.tables(), &page_table.tables(), 4 * (page.number - first), 4);
                                assert forall|m: u64|
                                    (forall|n: u64| first <= n <= end.number ==> !same_slot(n, m))
                                        implies #[trigger] page_table.can_map(m) == old(page_table).can_map(m) by {
                                    assert(!same_slot(page.number, m));
                                    assert(before.can_map(m) == old(page_table).can_map(m));
                                }
                            }
                            return None;
                        },
                    }
                    proof {
                        let fl = flags@;
                        assert(fl == PRESENT | WRITABLE | NO_EXECUTE ==> fl | PRESENT == fl) by (bit_vector);
                        assert(mapped_with(page_table, page.number, PRESENT | WRITABLE | NO_EXECUTE));
                        assert forall|n: u64| first <= n < page.number + 1 implies #[trigger] mapped_with(
                            page_table,
                            n,
                            PRESENT | WRITABLE | NO_EXECUTE,
                        ) by {
                            if n < page.number {
                                assert(mapped_with(&before, n, PRESENT | WRITABLE | NO_EXECUTE));
                                if same_slot(page.number, n) {
                                    lemma_same_slot_same_translation(&before, page.number, n);
                                    lemma_can_map_unmapped(&before, page.number);
                                }
                                assert(before.leaf_entry_of(n) is Some);
                            }
                        }
                        lemma_drew_chain(u0, up, frame_allocator.upcoming(), &old(page_table).tables(), &before.tables(), &page_table.tables(), 4 * (page.number - first), 4);
                        assert forall|m: u64|
                            (forall|n: u64| first <= n < page.number + 1 ==> !same_slot(n, m))
                                implies #[trigger] page_table.can_map(m) == old(page_table).can_map(m) by {
                            assert(!same_slot(page.number, m));
                            assert(before.can_map(m) == old(page_table).can_map(m));
                        }
                        if ready {
                            assert forall|n: u64| page.number + 1 <= n <= end.number implies #[trigger] page_table.can_map(n) by {
                                lemma_near_pages_distinct_slots(page.number, n);
                                assert(before.can_map(n));
                            }
                        }
                    }
                    assert forall|n: u64| first <= n <= page.number implies #[trigger]
                        page_table.translate_page_of(n) is Some by {
                        if n < page.number {
                            assert(before.translate_page_of(n) is Some);
                        }
                    }
                    assert forall|m: u64|
                        (forall|n: u64| first <= n < page.number + 1 ==> !same_slot(n, m))
                            implies #[trigger] page_table.translate_page_of(m) == old(page_table).translate_page_of(m) by {
                        assert(!same_slot(page.number, m));
                        assert(before.translate_page_of(m) == old(page_table).translate_page_of(m));
                    }
                    if size_in_pages < 0x10_0000_0000 {
                        proof {
                            lemma_near_pages_distinct_slots((first - 1) as u64, page.number);
                            assert(page_table.translate_page_of((first - 1) as u64)
                                == before.translate_page_of((first - 1) as u64));
                        }
                    }
                    page = Page { number: page.number + 1 };
                }
                let top_of_stack = end.start_address() + PAGE_SIZE;
                Some(Stack::new(top_of_stack, start.start_address()))
            },
            _ => None,  // not enough pages
        }
    }
}

} // verus!

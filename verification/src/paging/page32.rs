//! Virtual pages of the two-level (32-bit) layout and inclusive ranges of them.

use vstd::prelude::*;

verus! {

pub const PAGE_SIZE: u32 = 4096;

/// Index of a page number into the page directory.
pub open spec fn p2_index_of(number: u32) -> int {
    (number / 1024) as int % 1024
}

/// Index of a page number into a page table.
pub open spec fn p1_index_of(number: u32) -> int {
    number as int % 1024
}

/// A virtual page of `PAGE_SIZE` bytes, identified by its number.
#[derive(Clone, Copy, PartialEq, Eq, Structural, Debug)]
pub struct Page {
    pub number: u32,
}

impl Page {
    pub fn containing_address(address: u32) -> (r: Page)
        ensures
            r.number == address / PAGE_SIZE,
    {
        Page { number: address / PAGE_SIZE }
    }

    pub fn p2_index(&self) -> (r: u32)
        ensures
            r == p2_index_of(self.number),
            r < 1024,
    {
        let n = self.number;
        assert((n >> 10u32) & 0x3ffu32 == (n / 1024) % 1024) by (bit_vector);
        (self.number >> 10u32) & 0x3ff
    }

    pub fn p1_index(&self) -> (r: u32)
        ensures
            r == p1_index_of(self.number),
            r < 1024,
    {
        let n = self.number;
        assert((n >> 0u32) & 0x3ffu32 == n % 1024) by (bit_vector);
        (self.number >> 0u32) & 0x3ff
    }

    /// The pages from `start` through `end`, both included.
    pub fn range_inclusive(start: Page, end: Page) -> (r: PageIter)
        ensures
            r.start == start,
            r.end == end,
    {
        PageIter { start, end }
    }

    pub fn start_address(&self) -> (r: u32)
        requires
            self.number * PAGE_SIZE <= u32::MAX,
        ensures
            r == self.number * PAGE_SIZE,
    {
        self.number * PAGE_SIZE
    }

    /// The page `rhs` pages after this one.
    pub fn add(self, rhs: u32) -> (r: Page)
        requires
            self.number + rhs <= u32::MAX,
        ensures
            r.number == self.number + rhs,
    {
        Page { number: self.number + rhs }
    }
}

/// The pages from `start` through `end`; empty once `start` has passed `end`.
#[derive(Clone, Copy, PartialEq, Eq, Structural, Debug)]
pub struct PageIter {
    pub start: Page,
    pub end: Page,
}

impl PageIter {
    /// The next page of the range, if any.
    pub fn next(&mut self) -> (r: Option<Page>)
        requires
            old(self).start.number <= old(self).end.number ==> old(self).start.number < u32::MAX,
        ensures
            old(self).start.number <= old(self).end.number ==> r == Some(old(self).start)
                && final(self).start.number == old(self).start.number + 1,
            old(self).start.number > old(self).end.number ==> r is None && *final(self) == *old(self),
            final(self).end == old(self).end,
    {
        if self.start.number <= self.end.number {
            let page = self.start;
            self.start.number = self.start.number + 1;
            Some(page)
        } else {
            None
        }
    }
}

} // verus!

//! Virtual pages of the four-level (x86_64) layout and inclusive ranges of them.

use vstd::prelude::*;

use crate::paging::{VirtualAddress, PAGE_SIZE};

verus! {

/// Index of a page number into the level-4 table.
pub open spec fn p4_index_of(number: u64) -> int {
    (number / 0x800_0000) as int % 512
}

/// Index of a page number into a level-3 table.
pub open spec fn p3_index_of(number: u64) -> int {
    (number / 0x4_0000) as int % 512
}

/// Index of a page number into a level-2 table.
pub open spec fn p2_index_of(number: u64) -> int {
    (number / 0x200) as int % 512
}

/// Index of a page number into a level-1 table.
pub open spec fn p1_index_of(number: u64) -> int {
    number as int % 512
}

proof fn lemma_index_bits(n: u64)
    ensures
        (n >> 27u64) & 0o777u64 == (n / 0x800_0000) % 512,
        (n >> 18u64) & 0o777u64 == (n / 0x4_0000) % 512,
        (n >> 9u64) & 0o777u64 == (n / 0x200) % 512,
        n & 0o777u64 == n % 512,
{
    assert((n >> 27u64) & 0o777u64 == (n / 0x800_0000) % 512) by (bit_vector);
    assert((n >> 18u64) & 0o777u64 == (n / 0x4_0000) % 512) by (bit_vector);
    assert((n >> 9u64) & 0o777u64 == (n / 0x200) % 512) by (bit_vector);
    assert(n & 0o777u64 == n % 512) by (bit_vector);
}

/// The page that holds the start address of page `n` is page `n`.
pub proof fn lemma_page_address_round_trip(n: u64)
    requires
        n * PAGE_SIZE <= u64::MAX,
    ensures
        ((n * PAGE_SIZE) as u64) / PAGE_SIZE == n,
{
    assert((n * 4096) / 4096 == n) by (nonlinear_arith);
}

/// An address lies in the page that contains it, at an offset below `PAGE_SIZE`.
pub proof fn lemma_address_in_page(address: u64)
    ensures
        (address / PAGE_SIZE) * PAGE_SIZE <= address < (address / PAGE_SIZE) * PAGE_SIZE + PAGE_SIZE,
        address % PAGE_SIZE == address - (address / PAGE_SIZE) * PAGE_SIZE,
{
}

/// A virtual page of `PAGE_SIZE` bytes, identified by its number.
#[derive(Clone, Copy, PartialEq, Eq, Structural, Debug)]
pub struct Page {
    pub number: u64,
}

impl Page {
    pub fn containing_address(address: VirtualAddress) -> (r: Page)
        ensures
            r.number == address / PAGE_SIZE,
    {
        Page { number: address / PAGE_SIZE }
    }

    pub fn start_address(&self) -> (r: u64)
        requires
            self.number * PAGE_SIZE <= u64::MAX,
        ensures
            r == self.number * PAGE_SIZE,
    {
        self.number * PAGE_SIZE
    }

    pub fn p4_index(&self) -> (r: usize)
        ensures
            r == p4_index_of(self.number),
            r < 512,
    {
        proof {
            lemma_index_bits(self.number);
        }
        ((self.number >> 27u64) & 0o777u64) as usize
    }

    pub fn p3_index(&self) -> (r: usize)
        ensures
            r == p3_index_of(self.number),
            r < 512,
    {
        proof {
            lemma_index_bits(self.number);
        }
        ((self.number >> 18u64) & 0o777u64) as usize
    }

    pub fn p2_index(&self) -> (r: usize)
        ensures
            r == p2_index_of(self.number),
            r < 512,
    {
        proof {
            lemma_index_bits(self.number);
        }
        ((self.number >> 9u64) & 0o777u64) as usize
    }

    pub fn p1_index(&self) -> (r: usize)
        ensures
            r == p1_index_of(self.number),
            r < 512,
    {
        proof {
            lemma_index_bits(self.number);
        }
        (self.number & 0o777u64) as usize
    }

    /// The pages from `start` through `end`, both included.
    pub fn range_inclusive(start: Page, end: Page) -> (r: PageIter)
        ensures
            r.start == start,
            r.end == end,
    {
        PageIter { start, end }
    }

    /// The page `rhs` pages after this one.
    pub fn add(self, rhs: u64) -> (r: Page)
        requires
            self.number + rhs <= u64::MAX,
        ensures
            r.number == self.number + rhs,
    {
        Page { number: self.number + rhs }
    }
}

/// The pages from `start` through `end`; empty once `start` has passed `end`.
#[derive(Clone, Copy)]
pub struct PageIter {
    pub start: Page,
    pub end: Page,
}

impl PageIter {
    /// The numbers of the pages still to come, in order.
    pub open spec fn remaining(&self) -> Seq<u64> {
        if self.start.number <= self.end.number {
            Seq::new(
                (self.end.number - self.start.number + 1) as nat,
                |i: int| (self.start.number + i) as u64,
            )
        } else {
            Seq::empty()
        }
    }

    /// The next page of the range, if any.
    pub fn next(&mut self) -> (r: Option<Page>)
        requires
            old(self).start.number <= old(self).end.number ==> old(self).start.number < u64::MAX,
        ensures
            old(self).start.number <= old(self).end.number ==> r == Some(old(self).start) && final(self).start.number == old(self).start.number + 1,
            old(self).start.number > old(self).end.number ==> r is None && *final(self) == *old(self),
            final(self).end == old(self).end,
    {
        if self.start.number <= self.end.number {
            let page = self.start;
            self.start.number = self.start.number + 1;
            Some(page)
        } else {
            None
        }
    }

    /// Skips `n` pages and returns the one after them, if the range holds that many.
    pub fn nth(&mut self, n: u64) -> (r: Option<Page>)
        requires
            old(self).end.number < u64::MAX,
        ensures
            old(self).start.number + n <= old(self).end.number ==> r == Some(
                Page { number: (old(self).start.number + n) as u64 },
            ) && final(self).start.number == old(self).start.number + n + 1,
            old(self).start.number + n > old(self).end.number ==> r is None && final(self).start.number > final(self).end.number,
            final(self).end == old(self).end,
    {
        let mut i: u64 = 0;
        while i < n
            invariant
                self.end == old(self).end,
                self.end.number < u64::MAX,
                i <= n,
                old(self).start.number + i <= old(self).end.number + 1 ==> self.start.number
                    == old(self).start.number + i,
                old(self).start.number + i > old(self).end.number + 1 ==> self.start.number
                    > self.end.number,
            decreases n - i,
        {
            let _ = self.next();
            i = i + 1;
        }
        self.next()
    }
}

} // verus!

//! A frame allocator that hands out the frames of the first usable region of the boot
//! memory map, one after the other.

use vstd::prelude::*;

use crate::memory::{Frame, FrameAllocator};

verus! {

/// What a region of physical memory is used for.
#[derive(Clone, Copy, PartialEq, Eq, Structural, Debug)]
pub enum MemoryRegionType {
    /// free RAM
    Usable,
    /// used RAM
    InUse,
    /// unusable
    Reserved,
    /// ACPI reclaimable memory
    AcpiReclaimable,
    /// ACPI NVS memory
    AcpiNvs,
    /// an area containing bad memory
    BadMemory,
    /// kernel memory
    Kernel,
    /// kernel stack memory
    KernelStack,
    /// memory used by page tables
    PageTable,
    /// memory used by the boot loader
    Bootloader,
    /// the frame at address zero
    FrameZero,
    /// an empty region
    Empty,
    /// memory holding the boot information
    BootInfo,
}

/// The frames `start_frame_number` up to, not including, `end_frame_number`.
#[derive(Clone, Copy, PartialEq, Eq, Structural, Debug)]
pub struct FrameRange {
    pub start_frame_number: u64,
    pub end_frame_number: u64,
}

/// A region of the boot memory map.
#[derive(Clone, Copy, PartialEq, Eq, Structural, Debug)]
pub struct MemoryRegion {
    pub range: FrameRange,
    pub region_type: MemoryRegionType,
}

/// The index of the first usable region at or after `k`, or -1 where there is none.
pub open spec fn first_usable_from(regions: Seq<MemoryRegion>, k: int) -> int
    decreases regions.len() - k,
{
    if k < 0 || k >= regions.len() {
        -1
    } else if regions[k].region_type == MemoryRegionType::Usable {
        k
    } else {
        first_usable_from(regions, k + 1)
    }
}

proof fn lemma_first_usable_bounds(regions: Seq<MemoryRegion>, k: int)
    requires
        0 <= k,
    ensures
        first_usable_from(regions, k) == -1 || (k <= first_usable_from(regions, k) < regions.len()
            && regions[first_usable_from(regions, k)].region_type == MemoryRegionType::Usable),
    decreases regions.len() - k,
{
    if k < regions.len() && regions[k].region_type != MemoryRegionType::Usable {
        lemma_first_usable_bounds(regions, k + 1);
    }
}

/// The frames of the first usable region of `regions`, lowest first; none where there is
/// no usable region.
pub open spec fn usable_region_frames(regions: Seq<MemoryRegion>) -> Seq<Frame> {
    let k = first_usable_from(regions, 0);
    if k >= 0 {
        let range = regions[k].range;
        Seq::new(
            if range.start_frame_number < range.end_frame_number {
                (range.end_frame_number - range.start_frame_number) as nat
            } else {
                0
            },
            |i: int| Frame { number: (range.start_frame_number + i) as u64 },
        )
    } else {
        Seq::empty()
    }
}

/// Hands out the frames of the first usable region of a memory map, lowest first.
pub struct AreaFrameAllocator {
    memory_map: Vec<MemoryRegion>,
}

impl AreaFrameAllocator {
    /// The regions as the allocator holds them now.
    pub closed spec fn regions(&self) -> Seq<MemoryRegion> {
        self.memory_map@
    }

    /// The index of the region that frames come from.
    pub open spec fn source(&self) -> int {
        first_usable_from(self.regions(), 0)
    }

    /// An allocator over a copy of `memory_map`.
    pub fn new(memory_map: &Vec<MemoryRegion>) -> (r: AreaFrameAllocator)
        ensures
            r.regions() == memory_map@,
    {
        let mut mm: Vec<MemoryRegion> = Vec::new();
        let mut i: usize = 0;
        while i < memory_map.len()
            invariant
                i <= memory_map@.len(),
                mm@ == memory_map@.subrange(0, i as int),
            decreases memory_map@.len() - i,
        {
            mm.push(memory_map[i]);
            i = i + 1;
        }
        AreaFrameAllocator { memory_map: mm }
    }

    /// The regions, as the allocator holds them now.
    pub fn memory_map(&self) -> (r: &Vec<MemoryRegion>)
        ensures
            r@ == self.regions(),
    {
        &self.memory_map
    }
}

impl FrameAllocator for AreaFrameAllocator {
    /// The memory map has a usable region.
    open spec fn inv(&self) -> bool {
        self.source() >= 0
    }

    /// The frames left in the first usable region.
    open spec fn upcoming(&self) -> Seq<Frame> {
        usable_region_frames(self.regions())
    }

    /// The first frame left in the first usable region, which then starts one frame later;
    /// `None` once that region is used up.
    fn allocate_frame(&mut self) -> (r: Option<Frame>)
        ensures
            allocation_step(old(self), final(self), r),
    {
        proof {
            lemma_first_usable_bounds(self.memory_map@, 0);
        }
        let mut k: usize = 0;
        while k < self.memory_map.len() && self.memory_map[k].region_type
            != MemoryRegionType::Usable
            invariant
                k <= self.memory_map@.len(),
                first_usable_from(self.memory_map@, 0) == first_usable_from(self.memory_map@, k as int),
                first_usable_from(self.memory_map@, 0) >= 0,
            decreases self.memory_map@.len() - k,
        {
            k = k + 1;
        }
        let region = self.memory_map[k];
        if region.range.start_frame_number < region.range.end_frame_number {
            let frame = Frame { number: region.range.start_frame_number };
            let updated = MemoryRegion {
                range: FrameRange {
                    start_frame_number: region.range.start_frame_number + 1,
                    end_frame_number: region.range.end_frame_number,
                },
                region_type: region.region_type,
            };
            self.memory_map.set(k, updated);
            proof {
                lemma_first_usable_bounds(self.memory_map@, 0);
                lemma_first_usable_bounds(old(self).memory_map@, k as int);
                lemma_first_usable_suffix(old(self).memory_map@, self.memory_map@, 0, k as int);
                assert(usable_region_frames(self.memory_map@) =~= usable_region_frames(
                    old(self).memory_map@,
                ).drop_first());
            }
            Some(frame)
        } else {
            None
        }
    }
}

/// One allocation from `old`, which leaves `new` and hands out `r`: the first frame left in
/// the first usable region, which then starts one frame later; `None` once that region is
/// used up.
pub open spec fn allocation_step(old: &AreaFrameAllocator, new: &AreaFrameAllocator, r: Option<Frame>) -> bool {
    let k = old.source();
    let range = old.regions()[k].range;
    if range.start_frame_number < range.end_frame_number {
        &&& r == Some(Frame { number: range.start_frame_number })
        &&& new.regions() == old.regions().update(
            k,
            MemoryRegion {
                range: FrameRange {
                    start_frame_number: (range.start_frame_number + 1) as u64,
                    ..range
                },
                ..old.regions()[k]
            },
        )
    } else {
        &&& r is None
        &&& new.regions() == old.regions()
    }
}

/// Two allocations in a row hand out consecutive frames, so no frame is handed out twice;
/// once the region is used up, no more frames come.
pub proof fn lemma_allocations_consecutive(
    a0: &AreaFrameAllocator,
    a1: &AreaFrameAllocator,
    a2: &AreaFrameAllocator,
    r1: Option<Frame>,
    r2: Option<Frame>,
)
    requires
        a0.inv(),
        allocation_step(a0, a1, r1),
        allocation_step(a1, a2, r2),
    ensures
        r1 matches Some(f1) ==> (r2 matches Some(f2) ==> f2.number == f1.number + 1),
        r1 is None ==> r2 is None,
{
    let k = a0.source();
    lemma_first_usable_bounds(a0.regions(), 0);
    if r1 is Some {
        lemma_first_usable_bounds(a0.regions(), k);
        lemma_first_usable_suffix(a0.regions(), a1.regions(), 0, k);
    }
}

/// Changing a region at or after the first usable one (keeping it usable) keeps which
/// region is first usable.
proof fn lemma_first_usable_suffix(s0: Seq<MemoryRegion>, s1: Seq<MemoryRegion>, j: int, k: int)
    requires
        0 <= j <= k < s0.len(),
        s1.len() == s0.len(),
        first_usable_from(s0, j) == k,
        forall|m: int| 0 <= m < k ==> s1[m] == s0[m],
        s1[k].region_type == MemoryRegionType::Usable,
    ensures
        first_usable_from(s1, j) == k,
    decreases k - j,
{
    if j < k {
        lemma_first_usable_suffix(s0, s1, j + 1, k);
    }
}

} // verus!

//! A frame allocator that hands out every frame of every usable region of the boot memory
//! map, region after region, lowest frame first.

use vstd::prelude::*;

use crate::memory::area_frame_allocator::{MemoryRegion, MemoryRegionType};
use crate::memory::{Frame, FrameAllocator};

verus! {

/// The frame numbers `start..end`.
pub open spec fn frame_numbers(start: int, end: int) -> Seq<u64> {
    Seq::new(
        if start < end {
            (end - start) as nat
        } else {
            0
        },
        |k: int| (start + k) as u64,
    )
}

/// The frames of the usable regions among `regions[i..]`, in order.
pub open spec fn usable_frames_from(regions: Seq<MemoryRegion>, i: int) -> Seq<u64>
    decreases regions.len() - i,
{
    if i < 0 || i >= regions.len() {
        Seq::empty()
    } else {
        (if regions[i].region_type == MemoryRegionType::Usable {
            frame_numbers(
                regions[i].range.start_frame_number as int,
                regions[i].range.end_frame_number as int,
            )
        } else {
            Seq::empty()
        }) + usable_frames_from(regions, i + 1)
    }
}

/// The frames of the usable regions of `regions`, in order.
pub open spec fn usable_frames(regions: Seq<MemoryRegion>) -> Seq<u64> {
    usable_frames_from(regions, 0)
}

/// Region `a` comes no later than region `b`: by first frame, then by end.
pub open spec fn region_before(a: MemoryRegion, b: MemoryRegion) -> bool {
    a.range.start_frame_number < b.range.start_frame_number || (a.range.start_frame_number
        == b.range.start_frame_number && a.range.end_frame_number <= b.range.end_frame_number)
}

/// The regions as a boot loader's memory map holds them: none is empty, and they come in
/// order of their first frame, then of their end.
pub open spec fn memory_map_sorted(regions: Seq<MemoryRegion>) -> bool {
    &&& forall|k: int|
        0 <= k < regions.len() ==> (#[trigger] regions[k]).range.start_frame_number
            < regions[k].range.end_frame_number
    &&& forall|j: int, k: int|
        0 <= j < k < regions.len() ==> region_before(#[trigger] regions[j], #[trigger] regions[k])
}

/// Whether `memory_map` is sorted as a boot loader's memory map is.
pub fn is_memory_map_sorted(memory_map: &Vec<MemoryRegion>) -> (r: bool)
    ensures
        r == memory_map_sorted(memory_map@),
{
    let mut i: usize = 0;
    while i < memory_map.len()
        invariant
            i <= memory_map@.len(),
            memory_map_sorted(memory_map@.subrange(0, i as int)),
        decreases memory_map@.len() - i,
    {
        let region = memory_map[i];
        if region.range.start_frame_number >= region.range.end_frame_number {
            assert(!memory_map_sorted(memory_map@)) by {
                assert(memory_map@[i as int] == region);
            }
            return false;
        }
        if i > 0 {
            let prev = memory_map[i - 1];
            if !(prev.range.start_frame_number < region.range.start_frame_number || (
            prev.range.start_frame_number == region.range.start_frame_number
                && prev.range.end_frame_number <= region.range.end_frame_number)) {
                assert(!memory_map_sorted(memory_map@)) by {
                    assert(!region_before(memory_map@[i - 1], memory_map@[i as int]));
                }
                return false;
            }
        }
        proof {
            let s = memory_map@.subrange(0, i as int + 1);
            let t = memory_map@.subrange(0, i as int);
            assert forall|j: int, k: int| 0 <= j < k < s.len() implies region_before(
                #[trigger] s[j],
                #[trigger] s[k],
            ) by {
                if k < i {
                    assert(s[j] == t[j] && s[k] == t[k]);
                } else if j < i - 1 {
                    assert(t[j] == s[j] && t[i - 1] == s[i - 1]);
                    assert(region_before(t[j], t[i - 1]));
                }
            }
            assert forall|k: int| 0 <= k < s.len() implies (#[trigger] s[k]).range.start_frame_number
                < s[k].range.end_frame_number by {
                if k < i {
                    assert(s[k] == t[k]);
                }
            }
        }
        i = i + 1;
    }
    assert(memory_map@.subrange(0, i as int) =~= memory_map@);
    true
}

/// Hands out the frames of `usable_frames` of a memory map, one after the other.
pub struct UsableFrameAllocator {
    regions: Vec<MemoryRegion>,
    index: usize,
    next: u64,
}

impl UsableFrameAllocator {
    /// The frames still to be handed out, in order.
    pub closed spec fn remaining(&self) -> Seq<u64> {
        if self.index < self.regions@.len() {
            let region = self.regions@[self.index as int];
            (if region.region_type == MemoryRegionType::Usable {
                frame_numbers(self.next as int, region.range.end_frame_number as int)
            } else {
                Seq::empty()
            }) + usable_frames_from(self.regions@, self.index + 1)
        } else {
            Seq::empty()
        }
    }
}

/// An allocator that hands out every frame of the usable regions of `memory_map`, a map as a
/// boot loader gives it (see `memory_map_sorted`).
pub fn init_frame_allocator(memory_map: &Vec<MemoryRegion>) -> (r: UsableFrameAllocator)
    requires
        memory_map_sorted(memory_map@),
    ensures
        r.remaining() == usable_frames(memory_map@),
{
    let mut regions: Vec<MemoryRegion> = Vec::new();
    let mut i: usize = 0;
    while i < memory_map.len()
        invariant
            i <= memory_map@.len(),
            regions@ == memory_map@.subrange(0, i as int),
        decreases memory_map@.len() - i,
    {
        regions.push(memory_map[i]);
        i = i + 1;
    }
    proof {
        assert(regions@ =~= memory_map@);
    }
    if regions.len() == 0 {
        return UsableFrameAllocator { regions, index: 0, next: 0 };
    }
    let next = regions[0].range.start_frame_number;
    UsableFrameAllocator { regions, index: 0, next }
}

impl FrameAllocator for UsableFrameAllocator {
    open spec fn inv(&self) -> bool {
        true
    }

    /// The remaining frames.
    open spec fn upcoming(&self) -> Seq<Frame> {
        self.remaining().map_values(|n: u64| Frame { number: n })
    }

    /// The first of the remaining frames, which is then no longer remaining; `None` once
    /// no frame remains.
    fn allocate_frame(&mut self) -> (r: Option<Frame>)
        ensures
            old(self).remaining().len() == 0 ==> r is None && final(self).remaining() == old(self).remaining(),
            old(self).remaining().len() > 0 ==> r == Some(Frame { number: old(self).remaining()[0] })
                && final(self).remaining() == old(self).remaining().drop_first(),
    {
        while self.index < self.regions.len()
            invariant
                self.remaining() == old(self).remaining(),
                self.regions@ == old(self).regions@,
            decreases self.regions@.len() - self.index,
        {
            let region = self.regions[self.index];
            if region.region_type == MemoryRegionType::Usable && self.next
                < region.range.end_frame_number {
                let frame = Frame { number: self.next };
                let ghost before = self.remaining();
                self.next = self.next + 1;
                proof {
                    let rest = usable_frames_from(self.regions@, self.index + 1);
                    let end = region.range.end_frame_number as int;
                    assert(frame_numbers(self.next as int, end) =~= frame_numbers(
                        (self.next - 1) as int,
                        end,
                    ).drop_first());
                    assert(self.remaining() =~= before.drop_first());
                }
                return Some(frame);
            }
            let ghost before = self.remaining();
            self.index = self.index + 1;
            if self.index < self.regions.len() {
                self.next = self.regions[self.index].range.start_frame_number;
            }
            proof {
                assert(self.remaining() =~= before);
            }
        }
        proof {
            assert(self.remaining() =~= Seq::<u64>::empty());
        }
        None
    }
}

} // verus!

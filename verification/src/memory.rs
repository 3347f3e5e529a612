//! Boot-time memory bookkeeping: the usable-region list the boot
//! collaborator supplies, the frame allocator that walks it, and the page
//! arithmetic behind mapping the heap range. Writing page tables is the
//! machine's business outside this crate; every address computed for it is
//! contracted here.

use vstd::prelude::*;

use crate::constants::{HEAP_SIZE, HEAP_START};

verus! {

/// The size of one page and one physical frame.
pub const PAGE_SIZE: u64 = 4096;

/// What a physical memory region is used for, as the boot collaborator
/// reports it.
#[derive(Debug, Clone, Copy, PartialEq, Eq, Structural)]
pub enum MemoryRegionKind {
    Usable,
    Bootloader,
    Unknown,
}

/// One physical memory region: the addresses `start..end`.
#[derive(Debug, Clone, Copy, PartialEq, Eq, Structural)]
pub struct MemoryRegion {
    pub start: u64,
    pub end: u64,
    pub kind: MemoryRegionKind,
}

/// A frame allocator that never produces a frame.
pub struct EmptyFrameAllocator;

impl EmptyFrameAllocator {
    pub fn allocate_frame(&mut self) -> (r: Option<u64>)
        ensures
            r is None,
    {
        None
    }
}

/// The frame start addresses `start, start + 4096, ...` that lie below
/// `end`.
pub open spec fn spec_region_frames(start: int, end: int) -> Seq<u64>
    decreases end + PAGE_SIZE - start,
{
    if start >= end || start < 0 {
        Seq::empty()
    } else {
        seq![start as u64] + spec_region_frames(start + PAGE_SIZE as int, end)
    }
}

/// All usable frames of a region list, region by region in order.
pub open spec fn spec_usable_frames(regions: Seq<MemoryRegion>) -> Seq<u64>
    decreases regions.len(),
{
    if regions.len() == 0 {
        Seq::empty()
    } else {
        let head = if regions[0].kind == MemoryRegionKind::Usable {
            spec_region_frames(regions[0].start as int, regions[0].end as int)
        } else {
            Seq::empty()
        };
        head + spec_usable_frames(regions.drop_first())
    }
}

/// The element a frame sequence holds at `k`, if it is that long.
pub open spec fn spec_frame_at(s: Seq<u64>, k: int) -> Option<u64> {
    if 0 <= k < s.len() {
        Some(s[k])
    } else {
        None
    }
}

/// Serves physical frames from the boot collaborator's usable regions, in
/// address order within each region, never handing a frame out twice.
pub struct BootInfoFrameAllocator {
    regions: Vec<MemoryRegion>,
    next: usize,
}

impl BootInfoFrameAllocator {
    pub closed spec fn spec_regions(&self) -> Seq<MemoryRegion> {
        self.regions@
    }

    pub closed spec fn spec_next(&self) -> usize {
        self.next
    }

    /// Region ends stay clear of the top of the address space, so stepping
    /// one page past any in-region address cannot wrap.
    pub open spec fn wf(&self) -> bool {
        forall|i: int|
            0 <= i < self.spec_regions().len() ==> (#[trigger] self.spec_regions()[i]).end
                <= u64::MAX - PAGE_SIZE
    }

    /// Adopts the region list. The caller vouches that every region marked
    /// usable really is unused.
    pub fn new(regions: Vec<MemoryRegion>) -> (a: BootInfoFrameAllocator)
        requires
            forall|i: int|
                0 <= i < regions@.len() ==> (#[trigger] regions@[i]).end <= u64::MAX - PAGE_SIZE,
        ensures
            a.wf(),
            a.spec_regions() == regions@,
            a.spec_next() == 0,
    {
        BootInfoFrameAllocator { regions, next: 0 }
    }

    /// The next unissued usable frame, walking the usable regions in
    /// order; `None` once they are exhausted.
    pub fn allocate_frame(&mut self) -> (r: Option<u64>)
        requires
            old(self).wf(),
            old(self).spec_next() < usize::MAX,
        ensures
            final(self).wf(),
            final(self).spec_regions() == old(self).spec_regions(),
            final(self).spec_next() == old(self).spec_next() + 1,
            r == spec_frame_at(
                spec_usable_frames(old(self).spec_regions()),
                old(self).spec_next() as int,
            ),
    {
        let ghost regions0 = self.regions@;
        let n = self.next;
        self.next = self.next + 1;
        let mut remaining = n;
        let mut i: usize = 0;
        proof {
            assert(regions0.skip(0) =~= regions0);
        }
        while i < self.regions.len()
            invariant
                self.wf(),
                self.regions@ == regions0,
                regions0 == old(self).spec_regions(),
                self.next == n + 1,
                n == old(self).spec_next(),
                i <= regions0.len(),
                spec_frame_at(spec_usable_frames(regions0), n as int) == spec_frame_at(
                    spec_usable_frames(regions0.skip(i as int)),
                    remaining as int,
                ),
            decreases regions0.len() - i,
        {
            let region = self.regions[i];
            proof {
                assert(regions0.skip(i as int)[0] == region);
                assert(regions0.skip(i as int).drop_first() =~= regions0.skip(i as int + 1));
            }
            if matches!(region.kind, MemoryRegionKind::Usable) {
                let mut addr = region.start;
                while addr < region.end
                    invariant
                        self.wf(),
                        self.regions@ == regions0,
                        regions0 == old(self).spec_regions(),
                        self.next == n + 1,
                        n == old(self).spec_next(),
                        i < regions0.len(),
                        region == regions0[i as int],
                        region.start <= addr,
                        region.end <= u64::MAX - PAGE_SIZE,
                        spec_frame_at(spec_usable_frames(regions0), n as int) == spec_frame_at(
                            spec_region_frames(addr as int, region.end as int)
                                + spec_usable_frames(regions0.skip(i as int + 1)),
                            remaining as int,
                        ),
                    decreases region.end + PAGE_SIZE - addr,
                {
                    if remaining == 0 {
                        proof {
                            let tail = spec_region_frames(addr as int, region.end as int)
                                + spec_usable_frames(regions0.skip(i as int + 1));
                            assert(tail[0] == addr);
                        }
                        return Some(addr);
                    }
                    proof {
                        let head = spec_region_frames(addr as int, region.end as int);
                        let tail = spec_usable_frames(regions0.skip(i as int + 1));
                        let rest = spec_region_frames(addr as int + PAGE_SIZE as int, region.end as int);
                        assert((head + tail).drop_first() =~= rest + tail);
                    }
                    remaining = remaining - 1;
                    addr = addr + PAGE_SIZE;
                }
                proof {
                    assert(spec_region_frames(addr as int, region.end as int)
                        =~= Seq::<u64>::empty());
                    assert(spec_region_frames(addr as int, region.end as int) + spec_usable_frames(
                        regions0.skip(i as int + 1),
                    ) =~= spec_usable_frames(regions0.skip(i as int + 1)));
                }
            }
            i = i + 1;
        }
        proof {
            assert(regions0.skip(regions0.len() as int) =~= Seq::<MemoryRegion>::empty());
        }
        None
    }
}

/// The pages the heap range occupies: the page of its first byte, the page
/// of its last byte, and how many pages the inclusive range holds. These
/// are the pages that must be mapped present and writable before the
/// allocator's backing range is handed to it.
pub fn heap_page_range() -> (r: (u64, u64, u64))
    ensures
        r.0 == HEAP_START as int / PAGE_SIZE as int,
        r.1 == (HEAP_START + HEAP_SIZE - 1) as int / PAGE_SIZE as int,
        r.2 == r.1 - r.0 + 1,
{
    let first = HEAP_START / PAGE_SIZE;
    let last = (HEAP_START + HEAP_SIZE - 1) / PAGE_SIZE;
    (first, last, last - first + 1)
}

} // verus!

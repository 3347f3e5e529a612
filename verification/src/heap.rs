//! The global heap allocator model: segregated power-of-two size classes in
//! front of a first-fit fallback arena.
//!
//! Blocks are identified by their address inside the heap range. Freed class
//! blocks are kept on a per-class stack of free addresses (last freed, first
//! reused); requests that no class fits go straight to the fallback arena, as
//! do first-time carve-outs for a class whose stack is empty. A counter
//! records every trip into the fallback arena, so reuse can be told apart
//! from fresh carve-outs.

use vstd::prelude::*;
use vstd::arithmetic::div_mod::{
    lemma_fundamental_div_mod, lemma_mod_bound, lemma_mod_multiples_basic,
};

use crate::constants::{spec_block_size, block_size, BLOCK_SIZE_COUNT};

verus! {

/// The unique class able to serve a request: the minimal table entry at least
/// `max(size, align)`, or `None` when even the largest class is too small.
pub open spec fn spec_list_index(size: int, align: int) -> Option<int> {
    let required = if size >= align {
        size
    } else {
        align
    };
    if required <= 8 {
        Some(0int)
    } else if required <= 16 {
        Some(1int)
    } else if required <= 32 {
        Some(2int)
    } else if required <= 64 {
        Some(3int)
    } else if required <= 128 {
        Some(4int)
    } else if required <= 256 {
        Some(5int)
    } else if required <= 512 {
        Some(6int)
    } else if required <= 1024 {
        Some(7int)
    } else if required <= 2048 {
        Some(8int)
    } else {
        None
    }
}

/// Class selection is a pure function of the layout, so an allocation and the
/// matching deallocation always agree on the class.
pub fn list_index(size: u64, align: u64) -> (r: Option<usize>)
    ensures
        r == match spec_list_index(size as int, align as int) {
            Some(i) => Some(i as usize),
            None => None::<usize>,
        },
        r is Some ==> {
            let i = r->Some_0 as int;
            &&& 0 <= i < BLOCK_SIZE_COUNT
            &&& spec_block_size(i) >= size
            &&& spec_block_size(i) >= align
            &&& forall|j: int|
                0 <= j < i ==> spec_block_size(j) < size || spec_block_size(j) < align
        },
        r is None ==> size > 2048 || align > 2048,
{
    let required = if size >= align {
        size
    } else {
        align
    };
    if required <= 8 {
        Some(0)
    } else if required <= 16 {
        Some(1)
    } else if required <= 32 {
        Some(2)
    } else if required <= 64 {
        Some(3)
    } else if required <= 128 {
        Some(4)
    } else if required <= 256 {
        Some(5)
    } else if required <= 512 {
        Some(6)
    } else if required <= 1024 {
        Some(7)
    } else if required <= 2048 {
        Some(8)
    } else {
        None
    }
}

/// A maximal run of free bytes inside the fallback arena.
#[derive(Clone, Copy, PartialEq, Eq, Structural)]
pub struct FreeRange {
    pub start: u64,
    pub size: u64,
}

/// Mathematical state of the allocator: one free-address stack per size
/// class, the fallback arena's free ranges in ascending address order, and
/// the count of trips into the fallback arena.
#[verifier::ext_equal]
pub struct AllocModel {
    pub lists: Seq<Seq<u64>>,
    pub ranges: Seq<FreeRange>,
    pub fallback_allocations: nat,
    pub heap_start: int,
    pub heap_end: int,
    pub initialized: bool,
}

/// The smallest address at or above `a` that is a multiple of `align`.
pub open spec fn spec_round_up(a: int, align: int) -> int {
    ((a + align - 1) / align) * align
}

pub proof fn lemma_round_up(a: int, align: int)
    requires
        0 <= a,
        0 < align,
    ensures
        a <= spec_round_up(a, align) < a + align,
        spec_round_up(a, align) % align == 0,
{
    let x = a + align - 1;
    let q = x / align;
    let m = x % align;
    lemma_fundamental_div_mod(x, align);
    lemma_mod_bound(x, align);
    assert(q * align == align * q) by (nonlinear_arith);
    assert(spec_round_up(a, align) == x - m);
    lemma_mod_multiples_basic(q, align);
}

/// Whether a request of `size` bytes aligned to `align` fits inside `r`.
pub open spec fn spec_fits(r: FreeRange, size: int, align: int) -> bool {
    spec_round_up(r.start as int, align) + size <= r.start + r.size
}

/// First-fit search: the index of the first range the request fits in, and
/// the aligned address the request would be placed at.
pub open spec fn spec_first_fit(ranges: Seq<FreeRange>, size: int, align: int) -> Option<
    (int, int),
>
    decreases ranges.len(),
{
    if ranges.len() == 0 {
        None
    } else if spec_fits(ranges[0], size, align) {
        Some((0int, spec_round_up(ranges[0].start as int, align)))
    } else {
        match spec_first_fit(ranges.drop_first(), size, align) {
            Some((k, a)) => Some((k + 1, a)),
            None => None,
        }
    }
}

/// The arena after carving `[addr, addr + size)` out of range `k`: whatever
/// is left of the range before and after the carved block stays free.
pub open spec fn spec_carve(ranges: Seq<FreeRange>, k: int, addr: int, size: int) -> Seq<
    FreeRange,
> {
    let r = ranges[k];
    let pad = addr - r.start;
    let tail_start = addr + size;
    let tail_size = r.start + r.size - tail_start;
    let pieces = if pad > 0 && tail_size > 0 {
        seq![
            FreeRange { start: r.start, size: pad as u64 },
            FreeRange { start: tail_start as u64, size: tail_size as u64 },
        ]
    } else if pad > 0 {
        seq![FreeRange { start: r.start, size: pad as u64 }]
    } else if tail_size > 0 {
        seq![FreeRange { start: tail_start as u64, size: tail_size as u64 }]
    } else {
        Seq::empty()
    };
    ranges.take(k) + pieces + ranges.skip(k + 1)
}

/// Where a freed range starting at `addr` belongs in the ascending order:
/// before the first free range that starts at or after its end.
pub open spec fn spec_insert_pos(ranges: Seq<FreeRange>, addr: int, size: int) -> int
    decreases ranges.len(),
{
    if ranges.len() == 0 {
        0
    } else if ranges[0].start >= addr + size {
        0
    } else {
        1 + spec_insert_pos(ranges.drop_first(), addr, size)
    }
}

/// The arena after returning `[addr, addr + size)` to it.
pub open spec fn spec_insert_range(ranges: Seq<FreeRange>, addr: int, size: int) -> Seq<
    FreeRange,
> {
    let k = spec_insert_pos(ranges, addr, size);
    ranges.take(k) + seq![FreeRange { start: addr as u64, size: size as u64 }] + ranges.skip(k)
}

/// One fallback-arena allocation, as a state transition: the counter always
/// advances; on success the found block leaves the free ranges.
pub open spec fn spec_fallback_alloc(m: AllocModel, size: int, align: int) -> (AllocModel, Option<
    int,
>) {
    let bumped = AllocModel { fallback_allocations: m.fallback_allocations + 1, ..m };
    match spec_first_fit(m.ranges, size, align) {
        Some((k, a)) => (
            AllocModel { ranges: spec_carve(m.ranges, k, a, size), ..bumped },
            Some(a),
        ),
        None => (bumped, None),
    }
}

/// One allocation, as a state transition. A classed request pops its class
/// stack when it can (last freed block first) and otherwise carves one fresh
/// class-sized, class-aligned block from the fallback arena; an oversized
/// request goes to the fallback arena with its own layout.
pub open spec fn spec_alloc(m: AllocModel, size: int, align: int) -> (AllocModel, Option<int>) {
    match spec_list_index(size, align) {
        Some(i) => {
            if m.lists[i].len() > 0 {
                (
                    AllocModel { lists: m.lists.update(i, m.lists[i].drop_last()), ..m },
                    Some(m.lists[i].last() as int),
                )
            } else {
                let bs = spec_block_size(i);
                spec_fallback_alloc(m, bs, bs)
            }
        },
        None => spec_fallback_alloc(m, size, align),
    }
}

/// One deallocation, as a state transition: a classed block is pushed on top
/// of its class stack, an unclassed one returns to the fallback arena.
pub open spec fn spec_dealloc(m: AllocModel, addr: int, size: int, align: int) -> AllocModel {
    match spec_list_index(size, align) {
        Some(i) => AllocModel { lists: m.lists.update(i, m.lists[i].push(addr as u64)), ..m },
        None => AllocModel { ranges: spec_insert_range(m.ranges, addr, size), ..m },
    }
}

/// The process-wide block allocator behind every dynamic allocation.
pub struct FixedSizeBlockAllocator {
    free_lists: Vec<Vec<u64>>,
    free_ranges: Vec<FreeRange>,
    fallback_allocations: u64,
    heap_start: u64,
    heap_end: u64,
    initialized: bool,
}

impl View for FixedSizeBlockAllocator {
    type V = AllocModel;

    closed spec fn view(&self) -> AllocModel {
        AllocModel {
            lists: self.free_lists@.map_values(|l: Vec<u64>| l@),
            ranges: self.free_ranges@,
            fallback_allocations: self.fallback_allocations as nat,
            heap_start: self.heap_start as int,
            heap_end: self.heap_end as int,
            initialized: self.initialized,
        }
    }
}

/// Every address on class stack `i` denotes a block of `spec_block_size(i)`
/// bytes that lies inside the heap and is aligned to its own size.
pub open spec fn class_entry_ok(m: AllocModel, i: int, addr: int) -> bool {
    &&& m.heap_start <= addr
    &&& addr + spec_block_size(i) <= m.heap_end
    &&& addr % spec_block_size(i) == 0
}

/// Well-formedness: one stack per class, sound class entries, and fallback
/// free ranges that are non-empty, inside the heap, ascending and disjoint.
pub open spec fn wf_model(m: AllocModel) -> bool {
    &&& m.lists.len() == BLOCK_SIZE_COUNT
    &&& forall|i: int, j: int|
        0 <= i < m.lists.len() && 0 <= j < m.lists[i].len() ==> class_entry_ok(
            m,
            i,
            #[trigger] m.lists[i][j] as int,
        )
    &&& forall|k: int|
        0 <= k < m.ranges.len() ==> {
            &&& (#[trigger] m.ranges[k]).size > 0
            &&& m.heap_start <= m.ranges[k].start
            &&& m.ranges[k].start + m.ranges[k].size <= m.heap_end
        }
    &&& forall|k: int, l: int|
        0 <= k < l < m.ranges.len() ==> (#[trigger] m.ranges[k]).start + m.ranges[k].size <= (
        #[trigger] m.ranges[l]).start
    &&& 0 <= m.heap_start <= m.heap_end <= u64::MAX
}

impl FixedSizeBlockAllocator {
    pub open spec fn wf(&self) -> bool {
        wf_model(self@)
    }

    /// An allocator with every class stack empty and no arena yet; unusable
    /// until [`Self::init`] hands it its backing range.
    pub fn new() -> (a: FixedSizeBlockAllocator)
        ensures
            a.wf(),
            !a@.initialized,
            a@.lists.len() == BLOCK_SIZE_COUNT,
            forall|i: int| 0 <= i < BLOCK_SIZE_COUNT ==> (#[trigger] a@.lists[i]).len() == 0,
            a@.ranges.len() == 0,
            a@.fallback_allocations == 0,
    {
        let mut free_lists: Vec<Vec<u64>> = Vec::new();
        let mut i: usize = 0;
        while i < BLOCK_SIZE_COUNT
            invariant
                i <= BLOCK_SIZE_COUNT,
                free_lists@.len() == i,
                forall|k: int| 0 <= k < i ==> (#[trigger] free_lists@[k])@.len() == 0,
            decreases BLOCK_SIZE_COUNT - i,
        {
            free_lists.push(Vec::new());
            i = i + 1;
        }
        FixedSizeBlockAllocator {
            free_lists,
            free_ranges: Vec::new(),
            fallback_allocations: 0,
            heap_start: 0,
            heap_end: 0,
            initialized: false,
        }
    }

    /// Hands the allocator its backing range, which the caller must already
    /// have mapped present and writable. May be called only once, and every
    /// allocation before it is rejected by contract.
    pub fn init(&mut self, heap_start: u64, heap_size: u64)
        requires
            old(self).wf(),
            !old(self)@.initialized,
            old(self)@.ranges.len() == 0,
            forall|i: int|
                0 <= i < BLOCK_SIZE_COUNT ==> (#[trigger] old(self)@.lists[i]).len() == 0,
            heap_size > 0,
            heap_start + heap_size <= u64::MAX,
        ensures
            final(self).wf(),
            final(self)@.initialized,
            final(self)@.heap_start == heap_start,
            final(self)@.heap_end == heap_start + heap_size,
            final(self)@.ranges == seq![FreeRange { start: heap_start, size: heap_size }],
            final(self)@.lists == old(self)@.lists,
            final(self)@.fallback_allocations == old(self)@.fallback_allocations,
    {
        self.heap_start = heap_start;
        self.heap_end = heap_start + heap_size;
        self.free_ranges.push(FreeRange { start: heap_start, size: heap_size });
        self.initialized = true;
        assert(self@.ranges =~= seq![FreeRange { start: heap_start, size: heap_size }]);
    }

    /// How often the fallback arena has been asked for memory, whether for an
    /// oversized request or to carve a fresh class block.
    pub fn fallback_allocation_count(&self) -> (n: u64)
        ensures
            n == self@.fallback_allocations,
    {
        self.fallback_allocations
    }

    /// First-fit search and carve in the fallback arena.
    fn fallback_alloc(&mut self, size: u64, align: u64) -> (r: Option<u64>)
        requires
            old(self).wf(),
            old(self)@.initialized,
            old(self)@.fallback_allocations < u64::MAX,
            size > 0,
            align > 0,
        ensures
            final(self).wf(),
            ({
                let (m2, r2) = spec_fallback_alloc(old(self)@, size as int, align as int);
                &&& final(self)@ == m2
                &&& r2 == match r {
                    Some(a) => Some(a as int),
                    None => None::<int>,
                }
            }),
    {
        self.fallback_allocations = self.fallback_allocations + 1;
        let ghost ranges0 = self.free_ranges@;
        let mut k: usize = 0;
        proof {
            assert(ranges0.skip(0) =~= ranges0);
            assert(self@.lists =~~= old(self)@.lists);
            assert(self@.ranges == old(self)@.ranges);
            assert(self@.heap_start == old(self)@.heap_start);
            assert(self@.heap_end == old(self)@.heap_end);
            assert(wf_model(self@));
        }
        loop
            invariant
                self.wf(),
                self@.initialized,
                size > 0,
                align > 0,
                self@.fallback_allocations == old(self)@.fallback_allocations + 1,
                self@.lists == old(self)@.lists,
                self@.heap_start == old(self)@.heap_start,
                self@.heap_end == old(self)@.heap_end,
                self@.initialized == old(self)@.initialized,
                self@.ranges == ranges0,
                old(self)@.ranges == ranges0,
                k <= ranges0.len(),
                forall|j: int| 0 <= j < k ==> !spec_fits(ranges0[j], size as int, align as int),
                spec_first_fit(ranges0, size as int, align as int) == match spec_first_fit(
                    ranges0.skip(k as int),
                    size as int,
                    align as int,
                ) {
                    Some((kk, a)) => Some((kk + k, a)),
                    None => None::<(int, int)>,
                },
            decreases ranges0.len() - k,
        {
            if k >= self.free_ranges.len() {
                proof {
                    assert(ranges0.skip(k as int) =~= Seq::<FreeRange>::empty());
                    let (m2, r2) = spec_fallback_alloc(old(self)@, size as int, align as int);
                    assert(self@ =~= m2);
                }
                return None;
            }
            let r = self.free_ranges[k];
            proof {
                assert(self@.ranges[k as int] == r);
                assert(r.start + r.size <= self@.heap_end);
                lemma_round_up(r.start as int, align as int);
            }
            let aligned128: u128 = ((r.start as u128 + align as u128 - 1) / align as u128)
                * align as u128;
            let end128: u128 = r.start as u128 + r.size as u128;
            assert(aligned128 == spec_round_up(r.start as int, align as int));
            if aligned128 + size as u128 <= end128 {
                assert(aligned128 <= u64::MAX);
                let aligned: u64 = aligned128 as u64;
                proof {
                    assert(spec_fits(r, size as int, align as int));
                    assert(ranges0.skip(k as int)[0] == r);
                    assert(spec_first_fit(ranges0, size as int, align as int) == Some(
                        (k as int, aligned as int),
                    ));
                }
                self.carve(k, aligned, size);
                proof {
                    let (m2, r2) = spec_fallback_alloc(old(self)@, size as int, align as int);
                    assert(self@ =~= m2);
                }
                return Some(aligned);
            }
            proof {
                assert(ranges0.skip(k as int)[0] == r);
                assert(!spec_fits(ranges0[k as int], size as int, align as int));
                assert(ranges0.skip(k as int).drop_first() =~= ranges0.skip(k as int + 1));
            }
            k = k + 1;
        }
    }

    /// Services one allocation request of `size` bytes aligned to `align`,
    /// returning the address of the block, or `None` once the arena is
    /// exhausted (which the machine treats as terminal). Requests the table
    /// classes reuse the most recently freed block of their class first and
    /// touch the fallback arena only when their stack is empty; oversized
    /// requests never touch a class stack.
    pub fn allocate(&mut self, size: u64, align: u64) -> (r: Option<u64>)
        requires
            old(self).wf(),
            old(self)@.initialized,
            old(self)@.fallback_allocations < u64::MAX,
            size > 0,
            align > 0,
        ensures
            final(self).wf(),
            final(self)@.initialized,
            ({
                let (m2, r2) = spec_alloc(old(self)@, size as int, align as int);
                &&& final(self)@ == m2
                &&& r2 == match r {
                    Some(a) => Some(a as int),
                    None => None::<int>,
                }
            }),
            spec_list_index(size as int, align as int) is None ==> final(self)@.lists == old(
                self,
            )@.lists,
    {
        let ghost m0 = self@;
        match list_index(size, align) {
            Some(index) => {
                if self.free_lists[index].len() > 0 {
                    let popped = self.free_lists[index].pop();
                    let addr = popped.unwrap();
                    proof {
                        assert(self@.lists =~~= m0.lists.update(
                            index as int,
                            m0.lists[index as int].drop_last(),
                        ));
                        let (m2, r2) = spec_alloc(m0, size as int, align as int);
                        assert(self@ =~= m2);
                        assert forall|i: int, j: int|
                            0 <= i < self@.lists.len() && 0 <= j < self@.lists[i].len()
                            implies class_entry_ok(
                            self@,
                            i,
                            #[trigger] self@.lists[i][j] as int,
                        ) by {
                            assert(self@.lists[i][j] == m0.lists[i][j]);
                        }
                    }
                    Some(addr)
                } else {
                    let bs = block_size(index) as u64;
                    self.fallback_alloc(bs, bs)
                }
            },
            None => self.fallback_alloc(size, align),
        }
    }

    /// Returns one block. The caller must hand back the very layout it
    /// allocated with: class selection recomputes the identical class, a
    /// classed block goes on top of its class stack, and an unclassed one
    /// returns to the fallback arena, where it must not overlap anything
    /// already free.
    pub fn deallocate(&mut self, addr: u64, size: u64, align: u64)
        requires
            old(self).wf(),
            old(self)@.initialized,
            size > 0,
            align > 0,
            match spec_list_index(size as int, align as int) {
                Some(i) => class_entry_ok(old(self)@, i, addr as int),
                None => {
                    &&& old(self)@.heap_start <= addr
                    &&& addr + size <= old(self)@.heap_end
                    &&& forall|k: int|
                        0 <= k < old(self)@.ranges.len() ==> addr + size <= (
                        #[trigger] old(self)@.ranges[k]).start || old(self)@.ranges[k].start
                            + old(self)@.ranges[k].size <= addr
                },
            },
        ensures
            final(self).wf(),
            final(self)@ == spec_dealloc(old(self)@, addr as int, size as int, align as int),
    {
        let ghost m0 = self@;
        match list_index(size, align) {
            Some(index) => {
                self.free_lists[index].push(addr);
                proof {
                    assert(self@.lists =~~= m0.lists.update(
                        index as int,
                        m0.lists[index as int].push(addr),
                    ));
                    assert(self@ =~= spec_dealloc(m0, addr as int, size as int, align as int));
                    assert forall|i: int, j: int|
                        0 <= i < self@.lists.len() && 0 <= j < self@.lists[i].len()
                        implies class_entry_ok(self@, i, #[trigger] self@.lists[i][j] as int) by {
                        if i != index as int || j < m0.lists[i].len() {
                            assert(self@.lists[i][j] == m0.lists[i][j]);
                        }
                    }
                }
            },
            None => {
                self.fallback_dealloc(addr, size);
                proof {
                    assert(self@ =~= spec_dealloc(m0, addr as int, size as int, align as int));
                }
            },
        }
    }

    /// Returns `[addr, addr + size)` to the fallback arena, keeping the free
    /// ranges in ascending address order.
    fn fallback_dealloc(&mut self, addr: u64, size: u64)
        requires
            old(self).wf(),
            size > 0,
            old(self)@.heap_start <= addr,
            addr + size <= old(self)@.heap_end,
            forall|k: int|
                0 <= k < old(self)@.ranges.len() ==> addr + size <= (
                #[trigger] old(self)@.ranges[k]).start || old(self)@.ranges[k].start + old(
                    self,
                )@.ranges[k].size <= addr,
        ensures
            final(self).wf(),
            final(self)@ == (AllocModel {
                ranges: spec_insert_range(old(self)@.ranges, addr as int, size as int),
                ..old(self)@
            }),
    {
        let ghost ranges0 = self.free_ranges@;
        let mut k: usize = 0;
        proof {
            assert(ranges0.skip(0) =~= ranges0);
        }
        while k < self.free_ranges.len() && self.free_ranges[k].start < addr + size
            invariant
                self.wf(),
                self@ == old(self)@,
                self@.ranges == ranges0,
                size > 0,
                addr + size <= self@.heap_end,
                k <= ranges0.len(),
                forall|j: int| 0 <= j < k ==> (#[trigger] ranges0[j]).start < addr + size,
                spec_insert_pos(ranges0, addr as int, size as int) == k + spec_insert_pos(
                    ranges0.skip(k as int),
                    addr as int,
                    size as int,
                ),
            decreases ranges0.len() - k,
        {
            proof {
                assert(ranges0.skip(k as int)[0] == ranges0[k as int]);
                assert(ranges0.skip(k as int).drop_first() =~= ranges0.skip(k as int + 1));
            }
            k = k + 1;
        }
        proof {
            if (k as int) < ranges0.len() {
                assert(ranges0.skip(k as int)[0] == ranges0[k as int]);
            } else {
                assert(ranges0.skip(k as int) =~= Seq::<FreeRange>::empty());
            }
            assert(spec_insert_pos(ranges0, addr as int, size as int) == k);
        }
        self.free_ranges.insert(k, FreeRange { start: addr, size });
        proof {
            let rs = self@.ranges;
            assert(rs =~= spec_insert_range(ranges0, addr as int, size as int));
            assert(self@ =~= (AllocModel {
                ranges: spec_insert_range(old(self)@.ranges, addr as int, size as int),
                ..old(self)@
            }));
            // Every free range that the search passed over lies entirely below
            // the freed block, and every one at or past the insert position
            // lies entirely above it.
            assert forall|j: int| 0 <= j < k implies (#[trigger] ranges0[j]).start
                + ranges0[j].size <= addr by {}
            assert forall|j: int| k <= j < ranges0.len() implies addr + size <= (
            #[trigger] ranges0[j]).start by {
                if j > k {
                    assert(ranges0[k as int].start + ranges0[k as int].size <= ranges0[j].start);
                }
            }
            assert forall|x: int, y: int| 0 <= x < y < rs.len() implies (
            #[trigger] rs[x]).start + rs[x].size <= (#[trigger] rs[y]).start by {
                if x < k {
                    assert(rs[x] == ranges0[x]);
                } else if x > k {
                    assert(rs[x] == ranges0[x - 1]);
                }
                if y < k {
                    assert(rs[y] == ranges0[y]);
                } else if y > k {
                    assert(rs[y] == ranges0[y - 1]);
                }
            }
        }
    }

    /// How many freed blocks class `i` currently holds ready for reuse.
    pub fn class_list_len(&self, i: usize) -> (n: usize)
        requires
            self.wf(),
            i < BLOCK_SIZE_COUNT,
        ensures
            n == self@.lists[i as int].len(),
    {
        self.free_lists[i].len()
    }

    /// How many free ranges the fallback arena currently tracks.
    pub fn free_range_count(&self) -> (n: usize)
        ensures
            n == self@.ranges.len(),
    {
        self.free_ranges.len()
    }

    /// Splits range `k` around the carved block `[addr, addr + size)`.
    fn carve(&mut self, k: usize, addr: u64, size: u64)
        requires
            old(self).wf(),
            k < old(self)@.ranges.len(),
            old(self)@.ranges[k as int].start <= addr,
            addr + size <= old(self)@.ranges[k as int].start + old(self)@.ranges[k as int].size,
            size > 0,
        ensures
            final(self).wf(),
            final(self)@ == (AllocModel {
                ranges: spec_carve(old(self)@.ranges, k as int, addr as int, size as int),
                ..old(self)@
            }),
    {
        let ghost m0 = self@;
        let r = self.free_ranges.remove(k);
        let pad: u64 = addr - r.start;
        let tail_start: u64 = addr + size;
        let tail_size: u64 = r.start + r.size - tail_start;
        if tail_size > 0 {
            self.free_ranges.insert(k, FreeRange { start: tail_start, size: tail_size });
        }
        if pad > 0 {
            self.free_ranges.insert(k, FreeRange { start: r.start, size: pad });
        }
        proof {
            assert(self@.ranges =~= spec_carve(m0.ranges, k as int, addr as int, size as int));
            let rs = self@.ranges;
            assert forall|x: int, y: int| 0 <= x < y < rs.len() implies (#[trigger] rs[x]).start
                + rs[x].size <= (#[trigger] rs[y]).start by {}
        }
    }
}


/// A successful first-fit search names a real range, and places the block
/// inside it at the first aligned address.
pub proof fn lemma_first_fit_bounds(ranges: Seq<FreeRange>, size: int, align: int)
    requires
        size > 0,
        align > 0,
    ensures
        spec_first_fit(ranges, size, align) matches Some((k, a)) ==> {
            &&& 0 <= k < ranges.len()
            &&& a == spec_round_up(ranges[k].start as int, align)
            &&& ranges[k].start <= a
            &&& a + size <= ranges[k].start + ranges[k].size
        },
    decreases ranges.len(),
{
    if ranges.len() > 0 {
        if spec_fits(ranges[0], size, align) {
            lemma_round_up(ranges[0].start as int, align);
        } else {
            lemma_first_fit_bounds(ranges.drop_first(), size, align);
            if spec_first_fit(ranges, size, align) is Some {
                let (k, a) = spec_first_fit(ranges, size, align)->Some_0;
                assert(ranges.drop_first()[k - 1] == ranges[k]);
            }
        }
    }
}

/// Allocating, freeing the returned block, and allocating the same layout
/// again hands back the very same block, reused from the top of its class
/// stack, and leaves the allocator exactly as it stood after the first
/// allocation - provided no other same-class traffic intervened.
pub proof fn lemma_alloc_dealloc_alloc_reuses_block(m: AllocModel, size: int, align: int)
    requires
        wf_model(m),
        spec_list_index(size, align) is Some,
        spec_alloc(m, size, align).1 is Some,
    ensures
        ({
            let (m1, r1) = spec_alloc(m, size, align);
            let a = r1->Some_0;
            let m2 = spec_dealloc(m1, a, size, align);
            spec_alloc(m2, size, align) == (m1, Some(a))
        }),
{
    let i = spec_list_index(size, align)->Some_0;
    let (m1, r1) = spec_alloc(m, size, align);
    let a = r1->Some_0;
    let m2 = spec_dealloc(m1, a, size, align);
    if m.lists[i].len() > 0 {
        assert(m2.lists[i].drop_last() =~= m1.lists[i]);
        assert(m2.lists.update(i, m2.lists[i].drop_last()) =~~= m1.lists);
        assert(spec_alloc(m2, size, align).0 =~= m1);
    } else {
        let bs = spec_block_size(i);
        lemma_first_fit_bounds(m.ranges, bs, bs);
        assert(0 <= a <= u64::MAX);
        assert(m2.lists[i] =~= seq![a as u64]);
        assert(m2.lists[i].drop_last() =~= m1.lists[i]);
        assert(m2.lists.update(i, m2.lists[i].drop_last()) =~~= m1.lists);
        assert(spec_alloc(m2, size, align).0 =~= m1);
    }
}

/// A request larger than the largest size class never touches any class
/// stack: it is served (or refused) by the fallback arena alone.
pub proof fn lemma_oversized_skips_class_lists(m: AllocModel, size: int, align: int)
    requires
        spec_list_index(size, align) is None,
    ensures
        spec_alloc(m, size, align).0.lists == m.lists,
{
}

/// `n` allocations of one layout, applied in sequence.
pub open spec fn spec_alloc_n(m: AllocModel, size: int, align: int, n: nat) -> AllocModel
    decreases n,
{
    if n == 0 {
        m
    } else {
        spec_alloc_n(spec_alloc(m, size, align).0, size, align, (n - 1) as nat)
    }
}

/// Freeing each listed block of one layout, applied in sequence.
pub open spec fn spec_dealloc_all(m: AllocModel, addrs: Seq<u64>, size: int, align: int) -> AllocModel
    decreases addrs.len(),
{
    if addrs.len() == 0 {
        m
    } else {
        spec_dealloc_all(
            spec_dealloc(m, addrs[0] as int, size, align),
            addrs.drop_first(),
            size,
            align,
        )
    }
}

/// Whether each of `n` successive allocations of one layout succeeds.
pub open spec fn spec_alloc_n_succeeds(m: AllocModel, size: int, align: int, n: nat) -> bool
    decreases n,
{
    n == 0 || {
        let (m1, r1) = spec_alloc(m, size, align);
        r1 is Some && spec_alloc_n_succeeds(m1, size, align, (n - 1) as nat)
    }
}

/// While a class stack holds at least `n` freed blocks, `n` allocations of
/// that class all succeed straight off the stack: the fallback arena is
/// never consulted and its counter stands still.
pub proof fn lemma_class_reuse_needs_no_fallback(m: AllocModel, size: int, align: int, n: nat)
    requires
        m.lists.len() == BLOCK_SIZE_COUNT,
        spec_list_index(size, align) is Some,
        m.lists[spec_list_index(size, align)->Some_0].len() >= n,
    ensures
        spec_alloc_n_succeeds(m, size, align, n),
        spec_alloc_n(m, size, align, n).fallback_allocations == m.fallback_allocations,
        spec_alloc_n(m, size, align, n).ranges == m.ranges,
        spec_alloc_n(m, size, align, n).lists.len() == BLOCK_SIZE_COUNT,
    decreases n,
{
    let i = spec_list_index(size, align)->Some_0;
    if n > 0 {
        let (m1, r1) = spec_alloc(m, size, align);
        assert(m1.lists[i].len() == m.lists[i].len() - 1);
        lemma_class_reuse_needs_no_fallback(m1, size, align, (n - 1) as nat);
    }
}

/// Freeing a batch of blocks of one class grows that class's stack by the
/// batch size and never touches the fallback arena.
pub proof fn lemma_dealloc_all_feeds_class_stack(
    m: AllocModel,
    addrs: Seq<u64>,
    size: int,
    align: int,
)
    requires
        m.lists.len() == BLOCK_SIZE_COUNT,
        spec_list_index(size, align) is Some,
    ensures
        ({
            let i = spec_list_index(size, align)->Some_0;
            let m1 = spec_dealloc_all(m, addrs, size, align);
            &&& m1.lists.len() == BLOCK_SIZE_COUNT
            &&& m1.lists[i].len() == m.lists[i].len() + addrs.len()
            &&& m1.fallback_allocations == m.fallback_allocations
            &&& m1.ranges == m.ranges
        }),
    decreases addrs.len(),
{
    let i = spec_list_index(size, align)->Some_0;
    if addrs.len() > 0 {
        let m1 = spec_dealloc(m, addrs[0] as int, size, align);
        assert(m1.lists[i].len() == m.lists[i].len() + 1);
        lemma_dealloc_all_feeds_class_stack(m1, addrs.drop_first(), size, align);
    }
}

/// Freeing `n` blocks of one class and then allocating that class `n` times
/// succeeds entirely out of the class stack: every allocation is served,
/// and the fallback-arena counter ends where it began.
pub proof fn lemma_free_n_then_alloc_n_without_carve(
    m: AllocModel,
    addrs: Seq<u64>,
    size: int,
    align: int,
)
    requires
        m.lists.len() == BLOCK_SIZE_COUNT,
        spec_list_index(size, align) is Some,
    ensures
        ({
            let m1 = spec_dealloc_all(m, addrs, size, align);
            &&& spec_alloc_n_succeeds(m1, size, align, addrs.len())
            &&& spec_alloc_n(m1, size, align, addrs.len()).fallback_allocations
                == m.fallback_allocations
        }),
{
    lemma_dealloc_all_feeds_class_stack(m, addrs, size, align);
    let m1 = spec_dealloc_all(m, addrs, size, align);
    lemma_class_reuse_needs_no_fallback(m1, size, align, addrs.len());
}

} // verus!

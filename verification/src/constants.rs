//! Tunable constants of the runtime: executor capacity and the heap range.

use vstd::prelude::*;

verus! {

/// Capacity of the executor's ready queue: the most task wakes that can be
/// outstanding at once.
pub const MAXIMUM_CONCURRENT_TASKS: usize = 100;

/// Capacity of the keyboard scancode ring buffer.
pub const SCANCODE_QUEUE_CAPACITY: usize = 100;

/// Start address of the virtual range backing dynamic memory.
pub const HEAP_START: u64 = 0x4444_4444_0000;

/// Size in bytes of the dynamic memory range (30 MiB).
pub const HEAP_SIZE: u64 = 30 * 1024 * 1024;

/// Number of size classes the block allocator keeps.
pub const BLOCK_SIZE_COUNT: usize = 9;

/// The block size of each size class, an ascending table of powers of two.
pub open spec fn spec_block_size(i: int) -> int {
    if i <= 0 {
        8
    } else if i == 1 {
        16
    } else if i == 2 {
        32
    } else if i == 3 {
        64
    } else if i == 4 {
        128
    } else if i == 5 {
        256
    } else if i == 6 {
        512
    } else if i == 7 {
        1024
    } else {
        2048
    }
}

/// Executable form of [`spec_block_size`]; the table the allocator consults.
pub fn block_size(i: usize) -> (s: usize)
    requires
        i < BLOCK_SIZE_COUNT,
    ensures
        s == spec_block_size(i as int),
{
    match i {
        0 => 8,
        1 => 16,
        2 => 32,
        3 => 64,
        4 => 128,
        5 => 256,
        6 => 512,
        7 => 1024,
        _ => 2048,
    }
}

/// The table is ascending: a larger index never holds a smaller block.
pub proof fn lemma_block_sizes_ascending(i: int, j: int)
    requires
        i <= j,
    ensures
        spec_block_size(i) <= spec_block_size(j),
{
}

} // verus!

use hugo4os::heap::{list_index, FixedSizeBlockAllocator};

fn fresh(size: u64) -> FixedSizeBlockAllocator {
    let mut a = FixedSizeBlockAllocator::new();
    a.init(0x1000, size);
    a
}

#[test]
fn class_selection_is_minimal_fit() {
    assert_eq!(list_index(1, 1), Some(0));
    assert_eq!(list_index(8, 1), Some(0));
    assert_eq!(list_index(9, 1), Some(1));
    assert_eq!(list_index(100, 128), Some(4));
    assert_eq!(list_index(2048, 2048), Some(8));
    assert_eq!(list_index(2049, 1), None);
    assert_eq!(list_index(1, 4096), None);
}

#[test]
fn dealloc_then_alloc_reuses_same_block_lifo() {
    let mut a = fresh(0x10000);
    let p = a.allocate(24, 8).expect("first allocation");
    let carves = a.fallback_allocation_count();
    a.deallocate(p, 24, 8);
    let p2 = a.allocate(24, 8).expect("reallocation");
    assert_eq!(p2, p);
    assert_eq!(a.fallback_allocation_count(), carves);
}

#[test]
fn freed_batch_reused_in_lifo_order() {
    let mut a = fresh(0x10000);
    let p1 = a.allocate(64, 8).unwrap();
    let p2 = a.allocate(64, 8).unwrap();
    let p3 = a.allocate(64, 8).unwrap();
    a.deallocate(p1, 64, 8);
    a.deallocate(p2, 64, 8);
    a.deallocate(p3, 64, 8);
    let carves = a.fallback_allocation_count();
    assert_eq!(a.allocate(64, 8), Some(p3));
    assert_eq!(a.allocate(64, 8), Some(p2));
    assert_eq!(a.allocate(64, 8), Some(p1));
    // the whole batch came from the class stack: no new carve-outs
    assert_eq!(a.fallback_allocation_count(), carves);
}

#[test]
fn oversized_request_never_touches_class_lists() {
    let mut a = fresh(0x100000);
    // warm two class stacks so there is something an oversized request could
    // wrongly disturb
    let p = a.allocate(16, 8).unwrap();
    a.deallocate(p, 16, 8);
    let q = a.allocate(512, 512).unwrap();
    a.deallocate(q, 512, 512);
    let before: Vec<usize> = (0..9).map(|i| a.class_list_len(i)).collect();
    let big = a.allocate(5000, 8).expect("oversized allocation");
    let after: Vec<usize> = (0..9).map(|i| a.class_list_len(i)).collect();
    assert_eq!(before, after);
    a.deallocate(big, 5000, 8);
    let after_free: Vec<usize> = (0..9).map(|i| a.class_list_len(i)).collect();
    assert_eq!(before, after_free);
}

#[test]
fn oversized_free_returns_space_to_arena() {
    let mut a = fresh(0x10000);
    let p = a.allocate(5000, 16).expect("oversized allocation");
    assert_eq!(p % 16, 0);
    a.deallocate(p, 5000, 16);
    let p2 = a.allocate(5000, 16).expect("reallocation after free");
    assert_eq!(p2, p);
}

#[test]
fn class_blocks_are_class_aligned() {
    let mut a = fresh(0x10000);
    let p = a.allocate(100, 4).expect("class allocation");
    // class for max(100, 4) is 128 bytes, and fresh carve-outs are
    // 128-aligned
    assert_eq!(p % 128, 0);
}

#[test]
fn exhaustion_returns_none() {
    let mut a = fresh(0x1000);
    assert_eq!(a.allocate(8192, 8), None);
    // a fitting request still succeeds afterwards
    assert!(a.allocate(64, 8).is_some());
}

#[test]
fn arena_starts_as_one_range() {
    let a = fresh(0x10000);
    assert_eq!(a.free_range_count(), 1);
    assert_eq!(a.fallback_allocation_count(), 0);
}

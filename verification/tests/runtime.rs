use hugo4os::constants::{HEAP_SIZE, HEAP_START};
use hugo4os::memory::{
    heap_page_range, BootInfoFrameAllocator, EmptyFrameAllocator, MemoryRegion, MemoryRegionKind,
};
use hugo4os::process::{Process, ProcessKillSignal, ProcessManager};
use hugo4os::stream::{BufferedStream, MemoryStream, StreamRead, StreamWrite};
use hugo4os::syscall::{InputSyscall, SyscallId, SyscallRegs};

#[test]
fn process_ids_count_up_and_nothing_runs() {
    let mut pm = ProcessManager::new();
    assert_eq!(pm.add_process(Process::new(0)), 0);
    assert_eq!(pm.add_process(Process::new(0)), 1);
    assert_eq!(pm.add_process(Process::new(5)), 2);
    assert!(pm.kill(1, ProcessKillSignal::Terminate).is_ok());
    assert!(pm.run().is_none());
}

#[test]
fn memory_stream_appends_writes() {
    let mut ms = MemoryStream::new();
    ms.write(&[1, 2, 3]);
    ms.write(&[4]);
    assert_eq!(ms.contents(), vec![1, 2, 3, 4]);
    let head = ms.read(2);
    assert_eq!(head, vec![1, 2]);
    let all = ms.read(100);
    assert_eq!(all, vec![1, 2, 3, 4]);
}

#[test]
fn buffered_stream_flushes_its_whole_buffer() {
    let mut bs: BufferedStream<MemoryStream, 4> = BufferedStream::new(MemoryStream::new());
    bs.flush();
    // the fresh staging buffer is zeroed, and flush sends all of it
    assert_eq!(bs.read(100), vec![0, 0, 0, 0]);
    bs.write(&[7, 8]);
    assert_eq!(bs.read(100), vec![0, 0, 0, 0, 7, 8]);
}

#[test]
fn empty_frame_allocator_never_delivers() {
    let mut a = EmptyFrameAllocator;
    assert_eq!(a.allocate_frame(), None);
    assert_eq!(a.allocate_frame(), None);
}

#[test]
fn usable_frames_come_in_address_order_skipping_reserved() {
    let regions = vec![
        MemoryRegion { start: 0x0, end: 0x3000, kind: MemoryRegionKind::Usable },
        MemoryRegion { start: 0x3000, end: 0x5000, kind: MemoryRegionKind::Bootloader },
        MemoryRegion { start: 0x5000, end: 0x6000, kind: MemoryRegionKind::Usable },
    ];
    let mut a = BootInfoFrameAllocator::new(regions);
    assert_eq!(a.allocate_frame(), Some(0x0));
    assert_eq!(a.allocate_frame(), Some(0x1000));
    assert_eq!(a.allocate_frame(), Some(0x2000));
    assert_eq!(a.allocate_frame(), Some(0x5000));
    assert_eq!(a.allocate_frame(), None);
    assert_eq!(a.allocate_frame(), None);
}

#[test]
fn heap_range_spans_its_pages_exactly() {
    let (first, last, count) = heap_page_range();
    assert_eq!(first, HEAP_START / 4096);
    assert_eq!(last, (HEAP_START + HEAP_SIZE - 1) / 4096);
    // 30 MiB of heap is exactly 7680 pages
    assert_eq!(count, 7680);
}

#[test]
fn syscall_ids_follow_the_wire_order() {
    assert_eq!(SyscallId::StreamCreate.as_u64(), 0);
    assert_eq!(SyscallId::StreamWrite.as_u64(), 1);
    assert_eq!(SyscallId::StreamRead.as_u64(), 2);
    assert_eq!(SyscallId::StreamFlush.as_u64(), 3);
    for v in 0..4u64 {
        assert_eq!(SyscallId::from_u64(v).unwrap().as_u64(), v);
    }
    assert!(SyscallId::from_u64(4).is_none());
    assert!(SyscallId::from_u64(u64::MAX).is_none());
}

#[test]
fn register_capture_preserves_the_wire_mapping() {
    let regs = SyscallRegs {
        r15: 115,
        r14: 114,
        r13: 113,
        r12: 112,
        r11: 111,
        r10: 110,
        r9: 109,
        r8: 108,
        eax: 0x1000,
        rcx: 103,
        rdx: 102,
        rsi: 101,
    };
    let input: InputSyscall = regs.into_input();
    assert_eq!(input.args, [101, 102, 103, 108, 109, 110, 111, 112, 113, 114, 115]);
    assert_eq!(input.target, 0x1000);
}

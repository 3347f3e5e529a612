use hugo4os::executor::Executor;
use hugo4os::interrupts::{
    breakpoint_handler, double_fault_handler, init, keyboard_handler, page_fault_handler,
    realtime_clock_handler, simd_floating_point_handler, syscall_handler, timer_handler,
    ControllerPair, FaultOutcome, HandlerKind, InitStep, InterruptIndex, PortOp, VectorTable,
    PIC_1_OFFSET, PIC_2_OFFSET,
};
use hugo4os::keyboard::{InitOnce, ScancodeStream, StreamPoll};
use hugo4os::syscall::SyscallRegs;
use hugo4os::task::{Task, TaskIdCounter};

#[test]
fn vector_table_carries_only_implemented_handlers() {
    let table = VectorTable::build();
    assert_eq!(table.handler_at(3), HandlerKind::Breakpoint);
    assert_eq!(table.handler_at(8), HandlerKind::DoubleFault);
    assert_eq!(table.handler_at(14), HandlerKind::PageFault);
    assert_eq!(table.handler_at(19), HandlerKind::SimdFloatingPoint);
    assert_eq!(table.handler_at(32), HandlerKind::Timer);
    assert_eq!(table.handler_at(33), HandlerKind::Keyboard);
    assert_eq!(table.handler_at(40), HandlerKind::RealTimeClock);
    assert_eq!(table.handler_at(0x80), HandlerKind::Syscall);
    for v in [0u8, 1, 2, 4, 31, 34, 39, 41, 127, 129, 255] {
        assert_eq!(table.handler_at(v), HandlerKind::Missing);
    }
}

#[test]
fn init_orders_the_boot_steps_and_rewrites_the_clock_index() {
    let setup = init(0x12);
    assert_eq!(
        setup.steps,
        vec![
            InitStep::LoadVectorTable,
            InitStep::InitializeControllers,
            InitStep::EnableRtcPeriodic,
            InitStep::EnableInterrupts,
        ]
    );
    // the index register is rewritten before the data write: reading the
    // data port resets it
    assert_eq!(
        setup.rtc_ops,
        vec![
            PortOp::Write(0x70, 0x8B),
            PortOp::Read(0x71),
            PortOp::Write(0x70, 0x8B),
            PortOp::Write(0x71, 0x12 | 0x40),
        ]
    );
    assert_eq!(setup.pics.acknowledgements(), Vec::<u8>::new());
}

#[test]
fn every_irq_acknowledges_once_with_the_remapped_vector() {
    let mut once = InitOnce::new();
    let mut stream = ScancodeStream::new(&mut once);
    let mut ex = Executor::new();
    let mut pics = ControllerPair::new(PIC_1_OFFSET, PIC_2_OFFSET);

    timer_handler(&mut pics);
    keyboard_handler(&mut pics, &mut stream, &mut ex.task_queue, 0x1E);
    let rearm = realtime_clock_handler(&mut pics);

    // one acknowledgement per delivery, at the remapped vectors 32, 33 and
    // 40 - never the raw lines 0, 1 and 8
    assert_eq!(pics.acknowledgements(), vec![32, 33, 40]);
    assert_eq!(rearm, vec![PortOp::Write(0x70, 0x0C), PortOp::Read(0x71)]);
    // the keyboard byte reached the stream
    assert_eq!(stream.poll_next(0), StreamPoll::Ready(0x1E));
}

#[test]
fn keyboard_irq_wakes_the_registered_consumer() {
    let mut once = InitOnce::new();
    let mut stream = ScancodeStream::new(&mut once);
    let mut ex = Executor::new();
    let mut pics = ControllerPair::new(PIC_1_OFFSET, PIC_2_OFFSET);
    assert_eq!(stream.poll_next(4), StreamPoll::Pending);
    keyboard_handler(&mut pics, &mut stream, &mut ex.task_queue, 0x2A);
    assert_eq!(ex.ready_count(), 1);
    assert_eq!(stream.poll_next(4), StreamPoll::Ready(0x2A));
}

#[test]
fn controller_pair_serves_its_sixteen_remapped_vectors() {
    let pics = ControllerPair::new(PIC_1_OFFSET, PIC_2_OFFSET);
    for v in 32u8..48 {
        assert!(pics.handles_interrupt(v));
    }
    for v in [0u8, 1, 8, 31, 48, 0x80] {
        assert!(!pics.handles_interrupt(v));
    }
}

#[test]
fn exception_handlers_resume_except_double_fault() {
    assert_eq!(breakpoint_handler(), FaultOutcome::Resume);
    assert_eq!(simd_floating_point_handler(), FaultOutcome::Resume);
    assert_eq!(page_fault_handler(0xdeadbeef, 0x2), FaultOutcome::Resume);
    assert_eq!(double_fault_handler(), FaultOutcome::Fatal);
}

#[test]
fn interrupt_indices_use_remapped_numbers() {
    assert_eq!(InterruptIndex::Timer.as_u8(), 32);
    assert_eq!(InterruptIndex::Keyboard.as_u8(), 33);
    assert_eq!(InterruptIndex::RealTimeClock.as_u8(), 40);
    assert_eq!(InterruptIndex::Syscall.as_u8(), 0x80);
}

#[test]
fn syscall_trap_writes_back_through_the_selector_register() {
    let regs = SyscallRegs {
        r15: 15,
        r14: 14,
        r13: 13,
        r12: 12,
        r11: 11,
        r10: 10,
        r9: 9,
        r8: 8,
        eax: 0xCAFE,
        rcx: 3,
        rdx: 2,
        rsi: 1,
    };
    let resp = syscall_handler(regs, 25);
    assert_eq!(resp.value, 1337);
    assert_eq!(resp.write_to, 0xCAFE);
}

#[test]
fn boot_reaches_idle_only_when_ready_ring_is_empty() {
    // the end-to-end shape of a boot: interrupts come up, the first task is
    // spawned, the drain cycle runs it, and only then does the idle
    // decision allow the halt; the next keyboard tick wakes the machine
    // back out of idle
    let setup = init(0x00);
    let mut pics = setup.pics;
    let mut once = InitOnce::new();
    let mut stream = ScancodeStream::new(&mut once);
    let mut ids = TaskIdCounter::new();
    let mut ex = Executor::new();
    let consumer = Task::new(&mut ids, 1);
    let consumer_id = consumer.id.value;
    ex.spawn(consumer);
    assert!(!ex.sleep_when_idle());
    ex.run_ready_tasks();
    // the consumer polled once, found no input, and suspended on the stream
    assert_eq!(stream.poll_next(consumer_id), StreamPoll::Pending);
    assert!(ex.sleep_when_idle());
    // a hardware tick arrives while the machine idles
    timer_handler(&mut pics);
    keyboard_handler(&mut pics, &mut stream, &mut ex.task_queue, 0x1E);
    assert!(!ex.sleep_when_idle());
    ex.run_ready_tasks();
    assert_eq!(stream.poll_next(consumer_id), StreamPoll::Ready(0x1E));
    assert!(ex.sleep_when_idle());
    assert_eq!(pics.acknowledgements(), vec![32, 33]);
}

//! The trap dispatch layer: the 256-slot vector table, the remapped legacy
//! controller pair, and the handlers for exceptions, hardware interrupts and
//! the software syscall trap.
//!
//! The table build, the controller bookkeeping and every handler decision
//! are verified here over explicitly owned state; loading the table,
//! programming the chips and touching I/O ports are raw machine operations
//! that the boot layer outside this crate performs, following the ordered
//! records these functions return.

use vstd::prelude::*;

use crate::kernel;
use crate::keyboard::{spec_add_scancode, ScancodeStream};
use crate::queue::TaskQueue;
use crate::syscall::{SyscallRegs, SyscallResponse};

verus! {

/// Offset the first controller's eight lines are remapped to.
pub const PIC_1_OFFSET: u8 = 32;

/// Offset the second controller's eight lines are remapped to.
pub const PIC_2_OFFSET: u8 = PIC_1_OFFSET + 8;

/// The interrupt vectors this kernel serves, by the remapped numbers the
/// controllers deliver them at, plus the fixed software syscall vector
/// (chosen to alias the well-known `0x80` convention).
#[derive(Debug, Clone, Copy, PartialEq, Eq, Structural)]
pub enum InterruptIndex {
    Timer,
    Keyboard,
    SecondaryPIC,
    SerialPort2,
    SerialPort1,
    ParallelPort2And3,
    FloppyDisk,
    ParallelPort1,
    RealTimeClock,
    Acpi,
    Available1,
    Available2,
    Mouse,
    CoProcessor,
    PrimaryAta,
    SecondaryAta,
    Syscall,
}

impl InterruptIndex {
    /// The vector number of this index: the remapped value, never the raw
    /// hardware line.
    pub open spec fn spec_as_u8(self) -> u8 {
        match self {
            InterruptIndex::Timer => 32,
            InterruptIndex::Keyboard => 33,
            InterruptIndex::SecondaryPIC => 34,
            InterruptIndex::SerialPort2 => 35,
            InterruptIndex::SerialPort1 => 36,
            InterruptIndex::ParallelPort2And3 => 37,
            InterruptIndex::FloppyDisk => 38,
            InterruptIndex::ParallelPort1 => 39,
            InterruptIndex::RealTimeClock => 40,
            InterruptIndex::Acpi => 41,
            InterruptIndex::Available1 => 42,
            InterruptIndex::Available2 => 43,
            InterruptIndex::Mouse => 44,
            InterruptIndex::CoProcessor => 45,
            InterruptIndex::PrimaryAta => 46,
            InterruptIndex::SecondaryAta => 47,
            InterruptIndex::Syscall => 0x80,
        }
    }

    pub fn as_u8(self) -> (v: u8)
        ensures
            v == self.spec_as_u8(),
    {
        match self {
            InterruptIndex::Timer => 32,
            InterruptIndex::Keyboard => 33,
            InterruptIndex::SecondaryPIC => 34,
            InterruptIndex::SerialPort2 => 35,
            InterruptIndex::SerialPort1 => 36,
            InterruptIndex::ParallelPort2And3 => 37,
            InterruptIndex::FloppyDisk => 38,
            InterruptIndex::ParallelPort1 => 39,
            InterruptIndex::RealTimeClock => 40,
            InterruptIndex::Acpi => 41,
            InterruptIndex::Available1 => 42,
            InterruptIndex::Available2 => 43,
            InterruptIndex::Mouse => 44,
            InterruptIndex::CoProcessor => 45,
            InterruptIndex::PrimaryAta => 46,
            InterruptIndex::SecondaryAta => 47,
            InterruptIndex::Syscall => 0x80,
        }
    }
}

/// What a vector table slot points at.
#[derive(Debug, Clone, Copy, PartialEq, Eq, Structural)]
pub enum HandlerKind {
    Missing,
    Breakpoint,
    SimdFloatingPoint,
    PageFault,
    DoubleFault,
    Timer,
    Keyboard,
    RealTimeClock,
    Syscall,
}

/// The handler each of the 256 vectors is meant to carry: the four CPU
/// exceptions at their architectural vectors, the three hardware interrupts
/// at their remapped vectors, the syscall trap, and nothing anywhere else.
pub open spec fn spec_installed_handler(v: int) -> HandlerKind {
    if v == 3 {
        HandlerKind::Breakpoint
    } else if v == 8 {
        HandlerKind::DoubleFault
    } else if v == 14 {
        HandlerKind::PageFault
    } else if v == 19 {
        HandlerKind::SimdFloatingPoint
    } else if v == 32 {
        HandlerKind::Timer
    } else if v == 33 {
        HandlerKind::Keyboard
    } else if v == 40 {
        HandlerKind::RealTimeClock
    } else if v == 128 {
        HandlerKind::Syscall
    } else {
        HandlerKind::Missing
    }
}

/// The CPU's 256-slot vector table, built once at boot and never mutated
/// after it is loaded.
pub struct VectorTable {
    entries: Vec<HandlerKind>,
    double_fault_on_alternate_stack: bool,
}

impl VectorTable {
    pub closed spec fn entries(&self) -> Seq<HandlerKind> {
        self.entries@
    }

    /// The double-fault handler runs on a dedicated stack, so a stack
    /// overflow that double-faults is still catchable.
    pub closed spec fn double_fault_stack(&self) -> bool {
        self.double_fault_on_alternate_stack
    }

    pub open spec fn wf(&self) -> bool {
        self.entries().len() == 256
    }

    /// Builds the table: only implemented vectors carry non-default
    /// handlers.
    pub fn build() -> (t: VectorTable)
        ensures
            t.wf(),
            forall|v: int| 0 <= v < 256 ==> t.entries()[v] == spec_installed_handler(v),
            t.double_fault_stack(),
    {
        let mut entries: Vec<HandlerKind> = Vec::new();
        let mut i: usize = 0;
        while i < 256
            invariant
                i <= 256,
                entries@.len() == i,
                forall|v: int| 0 <= v < i ==> entries@[v] == HandlerKind::Missing,
            decreases 256 - i,
        {
            entries.push(HandlerKind::Missing);
            i = i + 1;
        }
        entries[3] = HandlerKind::Breakpoint;
        entries[8] = HandlerKind::DoubleFault;
        entries[14] = HandlerKind::PageFault;
        entries[19] = HandlerKind::SimdFloatingPoint;
        entries[InterruptIndex::Timer.as_u8() as usize] = HandlerKind::Timer;
        entries[InterruptIndex::Keyboard.as_u8() as usize] = HandlerKind::Keyboard;
        entries[InterruptIndex::RealTimeClock.as_u8() as usize] = HandlerKind::RealTimeClock;
        entries[InterruptIndex::Syscall.as_u8() as usize] = HandlerKind::Syscall;
        VectorTable { entries, double_fault_on_alternate_stack: true }
    }

    /// The handler slot for one vector.
    pub fn handler_at(&self, vector: u8) -> (h: HandlerKind)
        requires
            self.wf(),
        ensures
            h == self.entries()[vector as int],
    {
        self.entries[vector as usize]
    }
}

/// The two chained 8-line controllers, remapped away from the CPU exception
/// range. The model records every end-of-interrupt acknowledgement in
/// delivery order; the boot layer performs the matching port writes.
pub struct ControllerPair {
    offset1: u8,
    offset2: u8,
    eoi_log: Vec<u8>,
}

impl ControllerPair {
    pub closed spec fn spec_offset1(&self) -> u8 {
        self.offset1
    }

    pub closed spec fn spec_offset2(&self) -> u8 {
        self.offset2
    }

    /// Every acknowledgement issued so far, in order, by remapped vector.
    pub closed spec fn acks(&self) -> Seq<u8> {
        self.eoi_log@
    }

    /// Whether either chip serves this (already remapped) vector.
    pub open spec fn spec_handles(&self, vector: u8) -> bool {
        ||| self.spec_offset1() <= vector < self.spec_offset1() + 8
        ||| self.spec_offset2() <= vector < self.spec_offset2() + 8
    }

    pub fn new(offset1: u8, offset2: u8) -> (c: ControllerPair)
        ensures
            c.spec_offset1() == offset1,
            c.spec_offset2() == offset2,
            c.acks() == Seq::<u8>::empty(),
    {
        ControllerPair { offset1, offset2, eoi_log: Vec::new() }
    }

    /// The acknowledgement log, for inspection.
    pub fn acknowledgements(&self) -> (v: Vec<u8>)
        ensures
            v@ == self.acks(),
    {
        self.eoi_log.clone()
    }

    pub fn handles_interrupt(&self, vector: u8) -> (r: bool)
        ensures
            r == self.spec_handles(vector),
    {
        (self.offset1 <= vector && (vector as u16) < self.offset1 as u16 + 8) || (self.offset2
            <= vector && (vector as u16) < self.offset2 as u16 + 8)
    }

    /// Issues exactly one end-of-interrupt acknowledgement for a vector one
    /// of the chips serves, by its remapped number - never the raw line.
    pub fn notify_end_of_interrupt(&mut self, vector: u8)
        requires
            old(self).spec_handles(vector),
        ensures
            final(self).acks() == old(self).acks().push(vector),
            final(self).spec_offset1() == old(self).spec_offset1(),
            final(self).spec_offset2() == old(self).spec_offset2(),
    {
        self.eoi_log.push(vector);
    }
}

/// Whether a fault handler resumes the interrupted code or halts the
/// machine.
#[derive(Debug, Clone, Copy, PartialEq, Eq, Structural)]
pub enum FaultOutcome {
    Resume,
    Fatal,
}

/// Breakpoint exception: diagnostic only, execution resumes.
pub fn breakpoint_handler() -> (r: FaultOutcome)
    ensures
        r == FaultOutcome::Resume,
{
    FaultOutcome::Resume
}

/// SIMD floating-point exception: diagnostic only, execution resumes.
pub fn simd_floating_point_handler() -> (r: FaultOutcome)
    ensures
        r == FaultOutcome::Resume,
{
    FaultOutcome::Resume
}

/// Page fault: the faulting address and error flags are logged by the
/// caller and execution resumes - the resume-or-terminate policy is an open
/// question upstream, and this layer deliberately stays diagnostic-only.
pub fn page_fault_handler(accessed_address: u64, error_code: u64) -> (r: FaultOutcome)
    ensures
        r == FaultOutcome::Resume,
{
    let _ = accessed_address;
    let _ = error_code;
    FaultOutcome::Resume
}

/// Double fault: fatal halt. It runs on the dedicated alternate stack the
/// vector table reserves for it.
pub fn double_fault_handler() -> (r: FaultOutcome)
    ensures
        r == FaultOutcome::Fatal,
{
    FaultOutcome::Fatal
}

/// Timer interrupt: invokes the timer hook, then acknowledges exactly once
/// at the remapped timer vector.
pub fn timer_handler(pics: &mut ControllerPair)
    requires
        old(pics).spec_offset1() == PIC_1_OFFSET,
        old(pics).spec_offset2() == PIC_2_OFFSET,
    ensures
        final(pics).acks() == old(pics).acks().push(InterruptIndex::Timer.spec_as_u8()),
        final(pics).spec_offset1() == old(pics).spec_offset1(),
        final(pics).spec_offset2() == old(pics).spec_offset2(),
{
    kernel::timer();
    pics.notify_end_of_interrupt(InterruptIndex::Timer.as_u8());
}

/// Keyboard interrupt: the caller has read one byte from the keyboard data
/// port; it is forwarded to the scancode stream (never blocking, never
/// allocating) and the interrupt is acknowledged exactly once at the
/// remapped keyboard vector.
pub fn keyboard_handler(
    pics: &mut ControllerPair,
    stream: &mut ScancodeStream,
    ready_queue: &mut TaskQueue,
    scancode: u8,
)
    requires
        old(pics).spec_offset1() == PIC_1_OFFSET,
        old(pics).spec_offset2() == PIC_2_OFFSET,
        old(stream)@.elems.len() < old(stream)@.capacity && old(stream)@.waker is Some ==> old(
            ready_queue,
        ).elems().len() < old(ready_queue).capacity(),
    ensures
        final(pics).acks() == old(pics).acks().push(InterruptIndex::Keyboard.spec_as_u8()),
        final(pics).spec_offset1() == old(pics).spec_offset1(),
        final(pics).spec_offset2() == old(pics).spec_offset2(),
        ({
            let (s2, ready2, _) = spec_add_scancode(
                old(stream)@,
                old(ready_queue).elems(),
                scancode,
            );
            &&& final(stream)@ == s2
            &&& final(ready_queue).elems() == ready2
        }),
        final(ready_queue).capacity() == old(ready_queue).capacity(),
{
    kernel::keyboard(stream, ready_queue, scancode);
    pics.notify_end_of_interrupt(InterruptIndex::Keyboard.as_u8());
}

/// One raw port operation the boot layer must perform, in order.
#[derive(Debug, Clone, Copy, PartialEq, Eq, Structural)]
pub enum PortOp {
    Write(u16, u8),
    Read(u16),
}

/// Real-time-clock interrupt: invokes the clock hook, acknowledges exactly
/// once at the remapped clock vector, and returns the two port operations
/// that re-arm the next periodic signal - the hardware will not fire again
/// until its status register C is read.
pub fn realtime_clock_handler(pics: &mut ControllerPair) -> (rearm: Vec<PortOp>)
    requires
        old(pics).spec_offset1() == PIC_1_OFFSET,
        old(pics).spec_offset2() == PIC_2_OFFSET,
    ensures
        final(pics).acks() == old(pics).acks().push(InterruptIndex::RealTimeClock.spec_as_u8()),
        final(pics).spec_offset1() == old(pics).spec_offset1(),
        final(pics).spec_offset2() == old(pics).spec_offset2(),
        rearm@ == seq![PortOp::Write(0x70, 0x0C), PortOp::Read(0x71)],
{
    kernel::rtc();
    let mut rearm: Vec<PortOp> = Vec::new();
    rearm.push(PortOp::Write(0x70, 0x0C));
    rearm.push(PortOp::Read(0x71));
    pics.notify_end_of_interrupt(InterruptIndex::RealTimeClock.as_u8());
    proof {
        assert(rearm@ =~= seq![PortOp::Write(0x70, 0x0C), PortOp::Read(0x71)]);
    }
    rearm
}

/// Software syscall trap: the trap boundary captures all argument registers
/// at entry and reads the selector word through the dual-purpose register;
/// this handler reorders the registers into ABI slots, dispatches, and says
/// where the boundary must write the 64-bit result - through that same
/// recovered address.
pub fn syscall_handler(regs: SyscallRegs, selector: u64) -> (resp: SyscallResponse)
    ensures
        resp.value == 1337,
        resp.write_to == regs.eax,
{
    let input = regs.into_input();
    let value = kernel::syscall(input, selector);
    SyscallResponse { value, write_to: regs.eax }
}

/// One step of the boot-time interrupt initialization, in mandatory order.
#[derive(Debug, Clone, Copy, PartialEq, Eq, Structural)]
pub enum InitStep {
    LoadVectorTable,
    InitializeControllers,
    EnableRtcPeriodic,
    EnableInterrupts,
}

/// Everything the boot layer needs to bring interrupts up: the built table,
/// the remapped controller pair, the exact port writes that enable the
/// clock's periodic signal, and the order the steps must run in.
pub struct InterruptSetup {
    pub table: VectorTable,
    pub pics: ControllerPair,
    pub rtc_ops: Vec<PortOp>,
    pub steps: Vec<InitStep>,
}

/// Computes the whole interrupt bring-up from the clock configuration byte
/// the boot layer read back. The register-select write appears twice around
/// the read on purpose: reading the data port resets the index register, so
/// it must be rewritten before the configuration byte (with the periodic
/// bit set) is stored. Interrupts are enabled only as the final step, after
/// the table is loaded and the controllers are remapped.
pub fn init(previous_rtc_config: u8) -> (setup: InterruptSetup)
    ensures
        setup.table.wf(),
        forall|v: int| 0 <= v < 256 ==> setup.table.entries()[v] == spec_installed_handler(v),
        setup.table.double_fault_stack(),
        setup.pics.spec_offset1() == PIC_1_OFFSET,
        setup.pics.spec_offset2() == PIC_2_OFFSET,
        setup.pics.acks() == Seq::<u8>::empty(),
        setup.rtc_ops@ == seq![
            PortOp::Write(0x70, 0x8B),
            PortOp::Read(0x71),
            PortOp::Write(0x70, 0x8B),
            PortOp::Write(0x71, previous_rtc_config | 0x40),
        ],
        setup.steps@ == seq![
            InitStep::LoadVectorTable,
            InitStep::InitializeControllers,
            InitStep::EnableRtcPeriodic,
            InitStep::EnableInterrupts,
        ],
{
    let table = VectorTable::build();
    let pics = ControllerPair::new(PIC_1_OFFSET, PIC_2_OFFSET);
    let mut rtc_ops: Vec<PortOp> = Vec::new();
    rtc_ops.push(PortOp::Write(0x70, 0x8B));
    rtc_ops.push(PortOp::Read(0x71));
    rtc_ops.push(PortOp::Write(0x70, 0x8B));
    rtc_ops.push(PortOp::Write(0x71, previous_rtc_config | 0x40));
    let mut steps: Vec<InitStep> = Vec::new();
    steps.push(InitStep::LoadVectorTable);
    steps.push(InitStep::InitializeControllers);
    steps.push(InitStep::EnableRtcPeriodic);
    steps.push(InitStep::EnableInterrupts);
    proof {
        assert(rtc_ops@ =~= seq![
            PortOp::Write(0x70, 0x8B),
            PortOp::Read(0x71),
            PortOp::Write(0x70, 0x8B),
            PortOp::Write(0x71, previous_rtc_config | 0x40),
        ]);
        assert(steps@ =~= seq![
            InitStep::LoadVectorTable,
            InitStep::InitializeControllers,
            InitStep::EnableRtcPeriodic,
            InitStep::EnableInterrupts,
        ]);
    }
    InterruptSetup { table, pics, rtc_ops, steps }
}

/// The remapped vector a raw hardware line is delivered at.
pub open spec fn spec_remapped_vector(line: u8) -> u8 {
    if line < 8 {
        (PIC_1_OFFSET + line) as u8
    } else {
        (PIC_2_OFFSET + (line - 8)) as u8
    }
}

/// Acknowledgements always name the remapped vector: for every hardware
/// line, the vector the handlers acknowledge differs from the raw line
/// number, and the three served lines map to the vectors the handlers use.
pub proof fn lemma_ack_uses_remapped_vector(line: u8)
    requires
        line < 16,
    ensures
        spec_remapped_vector(line) != line,
        PIC_1_OFFSET <= spec_remapped_vector(line) < PIC_2_OFFSET + 8,
        spec_remapped_vector(0) == InterruptIndex::Timer.spec_as_u8(),
        spec_remapped_vector(1) == InterruptIndex::Keyboard.spec_as_u8(),
        spec_remapped_vector(8) == InterruptIndex::RealTimeClock.spec_as_u8(),
{
}

} // verus!

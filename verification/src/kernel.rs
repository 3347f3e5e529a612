//! Architecture-independent kernel hooks: the functions the trap handlers
//! forward into, plus the capability surface an architecture exposes to the
//! rest of the kernel.

use vstd::prelude::*;

use crate::framebuffer::FrameBuffer;
use crate::keyboard::{spec_add_scancode, ScancodeStream};
use crate::queue::TaskQueue;
use crate::syscall::InputSyscall;

verus! {

/// The interrupt capabilities an architecture hands the kernel: enabling
/// and disabling delivery, and the atomic idle primitive that re-enables
/// interrupts and halts in one step so a wake cannot slip between the two.
/// These are raw machine operations, so the trait promises nothing for
/// verification; an architecture implements them outside this crate.
pub trait Interrupts {
    fn enable();

    fn disable();

    fn enable_and_halt();
}

/// What the kernel asks of an architecture: interrupt control and a
/// framebuffer type for the boot collaborator to hand over.
pub trait Architecture: Interrupts {
    type FrameBuffer: FrameBuffer;
}

/// Timer interrupt hook. Nothing listens to the timer yet; the handler
/// still acknowledges the interrupt.
pub fn timer() {
}

/// Keyboard interrupt hook: forwards one raw scancode byte into the
/// stream, waking the registered consumer if the byte was kept. Runs in
/// interrupt context: never blocks, never allocates.
pub fn keyboard(stream: &mut ScancodeStream, ready_queue: &mut TaskQueue, scancode: u8)
    requires
        old(stream)@.elems.len() < old(stream)@.capacity && old(stream)@.waker is Some ==> old(
            ready_queue,
        ).elems().len() < old(ready_queue).capacity(),
    ensures
        ({
            let (s2, ready2, _) = spec_add_scancode(old(stream)@, old(ready_queue).elems(), scancode);
            &&& final(stream)@ == s2
            &&& final(ready_queue).elems() == ready2
        }),
        final(ready_queue).capacity() == old(ready_queue).capacity(),
{
    let _ = stream.add_scancode(ready_queue, scancode);
}

/// Real-time-clock interrupt hook. Nothing consumes the tick yet; the
/// handler still re-arms the clock and acknowledges the interrupt.
pub fn rtc() {
}

/// Syscall dispatch: selects by the value read through the recovered
/// selector pointer. No syscall is implemented yet, so every request
/// answers with the fixed placeholder value.
pub fn syscall(args: InputSyscall, selector: u64) -> (r: u64)
    ensures
        r == 1337,
{
    let _ = args;
    let _ = selector;
    1337
}

} // verus!

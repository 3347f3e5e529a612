//! Core runtime of a small cooperative kernel: the interrupt dispatch layer,
//! the global heap allocator, and the single-threaded async task executor with
//! its keyboard scancode stream.
//!
//! Hardware access (port I/O, table loads, the actual halt instruction) lives
//! outside this crate; everything here works on explicitly owned state so that
//! each transition carries a proved contract.

pub mod constants;
pub mod executor;
pub mod framebuffer;
pub mod heap;
pub mod interrupts;
pub mod kernel;
pub mod keyboard;
pub mod memory;
pub mod process;
pub mod queue;
pub mod render;
pub mod stream;
pub mod syscall;
pub mod task;
pub mod tga;

//! The register-based software-trap ABI: the kernel half of the syscall
//! convention.
//!
//! A caller raises the trap with up to eleven argument registers and one
//! dual-purpose selector register: on entry that register selects which
//! syscall to run (it holds the address of the caller's selector word), and
//! the 64-bit result is written back through the very same address. Reading
//! the selector word and writing the result are raw memory accesses done at
//! the trap boundary outside this crate; the ordered slot mapping and the
//! dispatch are verified here.

use vstd::prelude::*;

verus! {

/// The syscalls the kernel knows, in wire order starting at zero.
#[derive(Debug, Clone, Copy, PartialEq, Eq, Structural)]
pub enum SyscallId {
    StreamCreate,
    StreamWrite,
    StreamRead,
    StreamFlush,
}

impl SyscallId {
    /// The wire number of this syscall.
    pub open spec fn spec_as_u64(self) -> u64 {
        match self {
            SyscallId::StreamCreate => 0,
            SyscallId::StreamWrite => 1,
            SyscallId::StreamRead => 2,
            SyscallId::StreamFlush => 3,
        }
    }

    pub fn as_u64(self) -> (v: u64)
        ensures
            v == self.spec_as_u64(),
    {
        match self {
            SyscallId::StreamCreate => 0,
            SyscallId::StreamWrite => 1,
            SyscallId::StreamRead => 2,
            SyscallId::StreamFlush => 3,
        }
    }

    /// The syscall a wire number selects, if any.
    pub fn from_u64(v: u64) -> (r: Option<SyscallId>)
        ensures
            match r {
                Some(id) => id.spec_as_u64() == v,
                None => v > 3,
            },
    {
        match v {
            0 => Some(SyscallId::StreamCreate),
            1 => Some(SyscallId::StreamWrite),
            2 => Some(SyscallId::StreamRead),
            3 => Some(SyscallId::StreamFlush),
            _ => None,
        }
    }
}

/// The raw register file captured at syscall-trap entry. `eax` carries the
/// address of the caller's selector word, reused as the result pointer.
#[derive(Debug, Clone, Copy, PartialEq, Eq, Structural)]
pub struct SyscallRegs {
    pub r15: u64,
    pub r14: u64,
    pub r13: u64,
    pub r12: u64,
    pub r11: u64,
    pub r10: u64,
    pub r9: u64,
    pub r8: u64,
    pub eax: u64,
    pub rcx: u64,
    pub rdx: u64,
    pub rsi: u64,
}

/// The architecture-independent view of a syscall request: the eleven
/// argument slots in ABI order and the address of the selector/result word.
#[derive(Debug, Clone, Copy, PartialEq, Eq)]
pub struct InputSyscall {
    pub args: [u64; 11],
    pub target: u64,
}

/// The wire mapping from registers to argument slots, in order.
pub open spec fn spec_abi_slots(regs: SyscallRegs) -> Seq<u64> {
    seq![
        regs.rsi,
        regs.rdx,
        regs.rcx,
        regs.r8,
        regs.r9,
        regs.r10,
        regs.r11,
        regs.r12,
        regs.r13,
        regs.r14,
        regs.r15,
    ]
}

impl SyscallRegs {
    /// Reorders the captured registers into the ABI's argument slots,
    /// preserving the register-to-slot wire mapping.
    pub fn into_input(self) -> (r: InputSyscall)
        ensures
            r.args@ == spec_abi_slots(self),
            r.target == self.eax,
    {
        let input = InputSyscall {
            args: [
                self.rsi,
                self.rdx,
                self.rcx,
                self.r8,
                self.r9,
                self.r10,
                self.r11,
                self.r12,
                self.r13,
                self.r14,
                self.r15,
            ],
            target: self.eax,
        };
        proof {
            assert(input.args@ =~= spec_abi_slots(self));
        }
        input
    }
}

/// What the syscall handler hands back: the 64-bit result and the address
/// the trap boundary must write it through - the recovered entry-time value
/// of the selector register.
#[derive(Debug, Clone, Copy, PartialEq, Eq, Structural)]
pub struct SyscallResponse {
    pub value: u64,
    pub write_to: u64,
}

} // verus!

//! A verified model of a Linux kernel AIO adapter for a cooperative runtime.
//!
//! The crate captures the logic of an asynchronous-I/O multiplexer: a fixed
//! pool of kernel-visible request control blocks, an admission count that
//! bounds in-flight submissions to the kernel queue depth, the seeding of
//! submission control blocks, the routing of completion events back to the
//! owning request, and the recycling protocol that keeps the pool sound even
//! when a waiter is cancelled while its request is still in the kernel.
//!
//! The syscalls themselves, the event descriptor, the one-shot channels and
//! the task runtime live outside this crate; a host embeds this library and
//! drives the state machine in [`context`] from those events.

use vstd::prelude::*;

pub mod abi;
pub mod context;
pub mod errors;
pub mod file;
pub mod requests;

verus! {

/// How strongly a positional write is synchronized when the kernel completes
/// it: not at all, data only, or data plus metadata.
#[derive(Clone, Copy, Debug, PartialEq, Eq, Structural)]
pub enum SyncLevel {
    NoSync,
    Data,
    Full,
}

impl SyncLevel {
    /// The kernel write-flag bits that encode this sync level in a
    /// submission control block.
    pub open spec fn spec_flag_bits(self) -> u32 {
        match self {
            SyncLevel::NoSync => 0u32,
            SyncLevel::Data => abi::RWF_DSYNC,
            SyncLevel::Full => abi::RWF_SYNC,
        }
    }

    /// Encode this sync level as kernel write-flag bits.
    pub fn flag_bits(&self) -> (r: u32)
        ensures
            r == self.spec_flag_bits(),
    {
        match *self {
            SyncLevel::NoSync => 0u32,
            SyncLevel::Data => abi::RWF_DSYNC,
            SyncLevel::Full => abi::RWF_SYNC,
        }
    }
}

/// The four kernel AIO operations this adapter issues.
#[derive(Clone, Copy, Debug, PartialEq, Eq, Structural)]
pub enum Opcode {
    Fdsync,
    Fsync,
    Pwrite,
    Pread,
}

impl Opcode {
    /// The kernel opcode value for this operation.
    pub open spec fn spec_aio_const(self) -> u32 {
        match self {
            Opcode::Fdsync => abi::IOCB_CMD_FDSYNC,
            Opcode::Fsync => abi::IOCB_CMD_FSYNC,
            Opcode::Pwrite => abi::IOCB_CMD_PWRITE,
            Opcode::Pread => abi::IOCB_CMD_PREAD,
        }
    }

    /// Translate this operation to the opcode value the kernel understands.
    pub fn aio_const(&self) -> (r: u32)
        ensures
            r == self.spec_aio_const(),
    {
        match *self {
            Opcode::Fdsync => abi::IOCB_CMD_FDSYNC,
            Opcode::Fsync => abi::IOCB_CMD_FSYNC,
            Opcode::Pwrite => abi::IOCB_CMD_PWRITE,
            Opcode::Pread => abi::IOCB_CMD_PREAD,
        }
    }
}

/// One user operation, before it is seeded into a submission control block:
/// the kernel opcode, the file offset, the buffer address and length, and the
/// sync-level flag bits (writes only).
#[derive(Clone, Copy, Debug, PartialEq, Eq, Structural)]
pub struct Command {
    pub opcode: u32,
    pub offset: u64,
    pub buf: u64,
    pub len: u64,
    pub flags: u32,
}

} // verus!

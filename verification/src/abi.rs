//! The slice of the Linux AIO kernel ABI that the adapter depends on: the
//! opcode and flag constants, a plain image of the submission control block,
//! and the event-descriptor counter encoding.

use vstd::prelude::*;

verus! {

/// Kernel opcode: positional read.
pub const IOCB_CMD_PREAD: u32 = 0;

/// Kernel opcode: positional write.
pub const IOCB_CMD_PWRITE: u32 = 1;

/// Kernel opcode: full file sync.
pub const IOCB_CMD_FSYNC: u32 = 2;

/// Kernel opcode: data-only file sync.
pub const IOCB_CMD_FDSYNC: u32 = 3;

/// Control-block flag: signal the registered event descriptor on completion.
pub const IOCB_FLAG_RESFD: u32 = 1;

/// Write flag: data-only sync semantics for this write.
pub const RWF_DSYNC: u32 = 2;

/// Write flag: full sync semantics for this write.
pub const RWF_SYNC: u32 = 4;

/// A plain image of the kernel submission control block, holding exactly the
/// fields this adapter sets. A host copies these values verbatim into the
/// kernel's own layout before invoking the submit syscall; all other kernel
/// fields stay zero.
#[derive(Clone, Copy, Debug, PartialEq, Eq, Structural)]
pub struct Submission {
    /// Opaque word the kernel returns verbatim in the completion event.
    pub user_data: u64,
    /// Kernel opcode of the operation.
    pub opcode: u32,
    /// File descriptor the operation applies to.
    pub fd: i32,
    /// Address of the user buffer.
    pub buf: u64,
    /// Length of the user buffer in bytes.
    pub len: u64,
    /// File offset of the operation.
    pub offset: u64,
    /// Flag bits: sync-level bits plus the event-descriptor signal bit.
    pub flags: u32,
    /// The event descriptor the kernel signals on completion.
    pub resfd: u32,
}

impl Submission {
    /// The all-zero control block every request starts from.
    pub fn zeroed() -> (r: Submission)
        ensures
            r == (Submission {
                user_data: 0u64,
                opcode: 0u32,
                fd: 0i32,
                buf: 0u64,
                len: 0u64,
                offset: 0u64,
                flags: 0u32,
                resfd: 0u32,
            }),
    {
        Submission {
            user_data: 0,
            opcode: 0,
            fd: 0,
            buf: 0,
            len: 0,
            offset: 0,
            flags: 0,
            resfd: 0,
        }
    }
}

/// The value of an 8-byte little-endian unsigned counter, as the event
/// descriptor delivers it: byte 0 is least significant.
pub open spec fn le_counter(b: Seq<u8>) -> int
    recommends
        b.len() == 8,
{
    b[0] + 0x100 * b[1] + 0x1_0000 * b[2] + 0x100_0000 * b[3] + 0x1_0000_0000 * b[4]
        + 0x100_0000_0000 * b[5] + 0x1_0000_0000_0000 * b[6] + 0x100_0000_0000_0000 * b[7]
}

/// Decode the 8-byte little-endian counter that one read of the event
/// descriptor yields: the number of completions since the previous read.
pub fn eventfd_counter(b: &[u8]) -> (r: u64)
    requires
        b@.len() == 8,
    ensures
        r == le_counter(b@),
{
    (b[0] as u64) + 0x100u64 * (b[1] as u64) + 0x1_0000u64 * (b[2] as u64) + 0x100_0000u64 * (
    b[3] as u64) + 0x1_0000_0000u64 * (b[4] as u64) + 0x100_0000_0000u64 * (b[5] as u64)
        + 0x1_0000_0000_0000u64 * (b[6] as u64) + 0x100_0000_0000_0000u64 * (b[7] as u64)
}

} // verus!

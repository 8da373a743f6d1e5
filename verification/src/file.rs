//! The file face of the adapter, and the classification of syscall and
//! completion results.
//!
//! A file is a raw descriptor opened for direct I/O; opening, closing and
//! the actual submission syscall belong to the host. What is decided here:
//! which command each typed operation stands for, when a submit return value
//! counts as accepted, and how a delivered completion code is classified
//! into a byte count or a typed error.

use vstd::prelude::*;

use crate::{Command, Opcode, SyncLevel};
use crate::errors::AioCommandError;

verus! {

/// A file opened with direct-I/O, read-write semantics, known here only by
/// its raw descriptor. The host opens and closes the descriptor; buffers
/// handed to `read` and `write` must be page-aligned and page-pinned, which
/// the file does not validate.
#[derive(Clone, Copy, Debug, PartialEq, Eq, Structural)]
pub struct AioFile {
    /// The raw file descriptor.
    pub fd: i32,
}

impl AioFile {
    /// Adopt an already-open descriptor.
    pub fn new(fd: i32) -> (f: AioFile)
        ensures
            f.fd == fd,
    {
        AioFile { fd }
    }

    /// The command of a positional read of `len` bytes at `offset` into the
    /// buffer at address `buf`.
    pub fn read(&self, offset: u64, buf: u64, len: u64) -> (c: Command)
        ensures
            c.opcode == Opcode::Pread.spec_aio_const(),
            c.offset == offset,
            c.buf == buf,
            c.len == len,
            c.flags == 0,
    {
        Command { opcode: Opcode::Pread.aio_const(), offset, buf, len, flags: 0 }
    }

    /// The command of a positional write of `len` bytes at `offset` from the
    /// buffer at address `buf`, with no sync flags.
    pub fn write(&self, offset: u64, buf: u64, len: u64) -> (c: Command)
        ensures
            c.opcode == Opcode::Pwrite.spec_aio_const(),
            c.offset == offset,
            c.buf == buf,
            c.len == len,
            c.flags == 0,
    {
        self.write_sync(offset, buf, len, SyncLevel::NoSync)
    }

    /// The command of a positional write with the given sync level encoded
    /// in the command flags.
    pub fn write_sync(&self, offset: u64, buf: u64, len: u64, sync_level: SyncLevel) -> (c: Command)
        ensures
            c.opcode == Opcode::Pwrite.spec_aio_const(),
            c.offset == offset,
            c.buf == buf,
            c.len == len,
            c.flags == sync_level.spec_flag_bits(),
    {
        Command {
            opcode: Opcode::Pwrite.aio_const(),
            offset,
            buf,
            len,
            flags: sync_level.flag_bits(),
        }
    }

    /// The command of a full file sync: no buffer, no offset.
    pub fn sync(&self) -> (c: Command)
        ensures
            c.opcode == Opcode::Fsync.spec_aio_const(),
            c.offset == 0,
            c.buf == 0,
            c.len == 0,
            c.flags == 0,
    {
        Command { opcode: Opcode::Fsync.aio_const(), offset: 0, buf: 0, len: 0, flags: 0 }
    }

    /// The command of a data-only file sync: no buffer, no offset.
    pub fn data_sync(&self) -> (c: Command)
        ensures
            c.opcode == Opcode::Fdsync.spec_aio_const(),
            c.offset == 0,
            c.buf == 0,
            c.len == 0,
            c.flags == 0,
    {
        Command { opcode: Opcode::Fdsync.aio_const(), offset: 0, buf: 0, len: 0, flags: 0 }
    }
}

/// Whether a submit syscall return value means the one submitted request was
/// accepted: the kernel reports the number it accepted, and anything other
/// than one is a failure.
pub fn submit_accepted(ret: i64) -> (r: bool)
    ensures
        r <==> ret == 1,
{
    ret == 1
}

/// Classify a completion code the kernel delivered for one request: a
/// negative code is the negation of a standard OS error code and is surfaced
/// as a result error; any other code — a byte count for reads and writes,
/// zero for syncs — is returned verbatim.
pub fn classify_completion(code: i64) -> (r: Result<i64, AioCommandError>)
    requires
        code > i64::MIN,
    ensures
        code >= 0 ==> r == Ok::<i64, AioCommandError>(code),
        code < 0 ==> r == Err::<i64, AioCommandError>(
            AioCommandError::BadResult(#[verifier::truncate] ((-code) as i32)),
        ),
{
    if code < 0 {
        Err(AioCommandError::BadResult(#[verifier::truncate] ((-code) as i32)))
    } else {
        Ok(code)
    }
}

/// Classify what the one-shot receiver of an operation resolved to: the
/// completion code when the pump delivered one, or nothing when the channel
/// closed because the context stopped first.
pub fn classify_delivery(outcome: Option<i64>) -> (r: Result<i64, AioCommandError>)
    requires
        (match outcome {
            Option::Some(code) => code > i64::MIN,
            Option::None => true,
        }),
    ensures
        (match outcome {
            Option::Some(code) => {
                &&& code >= 0 ==> r == Ok::<i64, AioCommandError>(code)
                &&& code < 0 ==> r == Err::<i64, AioCommandError>(
                    AioCommandError::BadResult(#[verifier::truncate] ((-code) as i32)),
                )
            },
            Option::None => r == Err::<i64, AioCommandError>(AioCommandError::AioStopped),
        }),
{
    match outcome {
        Option::Some(code) => classify_completion(code),
        Option::None => Err(AioCommandError::AioStopped),
    }
}

/// Whether an event-descriptor counter value is one the completion pump can
/// act on: the kernel never signals zero completions, and can never have
/// more than the queue depth in flight.
pub fn completion_count_ok(available: u64, nr: usize) -> (r: bool)
    ensures
        r <==> (0 < available && available <= nr as u64),
{
    0 < available && available <= nr as u64
}

} // verus!

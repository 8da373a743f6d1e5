//! Typed errors of the adapter. Each operating-system failure is carried as
//! the raw OS error code observed at the failing call.

use vstd::prelude::*;

verus! {

/// Why a single user operation failed.
#[derive(Clone, Copy, Debug, PartialEq, Eq, Structural)]
pub enum AioCommandError {
    /// The context's completion pump has stopped, so the one-shot channel of
    /// this operation closed without a result.
    AioStopped,
    /// The submit syscall accepted a number of requests other than one; the
    /// payload is the OS error code reported alongside.
    IoSubmit(i32),
    /// The kernel completed the request with a negative result code; the
    /// payload is that code negated, a standard OS error code.
    BadResult(i32),
}

/// Why constructing an AIO context failed.
#[derive(Clone, Copy, Debug, PartialEq, Eq, Structural)]
pub enum ContextError {
    /// Creating the event descriptor failed with this OS error code.
    EventFd(i32),
    /// The kernel setup call failed with this OS error code.
    IoSetup(i32),
    /// The request pool could not be allocated.
    PoolAlloc,
}

/// Why opening or creating a file for direct I/O failed.
#[derive(Clone, Copy, Debug, PartialEq, Eq, Structural)]
pub enum AioFileError {
    /// The OS error code of the failing open call.
    System(i32),
}

} // verus!

//! Error numbers and the error taxonomy of the engine.

use vstd::prelude::*;
use crate::filesystem::PathError;

verus! {

/// Largest error number the kernel encodes in a result register.
pub const MAX_ERRNO: u64 = 4095;

/// Kernel error numbers that the engine reports to a traced process.
#[derive(Clone, Copy, Debug, PartialEq, Eq, Structural)]
pub enum Errno {
    EPERM,
    ENOENT,
    ESRCH,
    EIO,
    E2BIG,
    ENOEXEC,
    ENOMEM,
    EACCES,
    EFAULT,
    ENOTDIR,
    EINVAL,
    EROFS,
    ERANGE,
    ENAMETOOLONG,
    ENOSYS,
    ELOOP,
}

impl Errno {
    /// The positive number the kernel assigns to this error.
    pub open spec fn spec_code(self) -> int {
        match self {
            Errno::EPERM => 1,
            Errno::ENOENT => 2,
            Errno::ESRCH => 3,
            Errno::EIO => 5,
            Errno::E2BIG => 7,
            Errno::ENOEXEC => 8,
            Errno::ENOMEM => 12,
            Errno::EACCES => 13,
            Errno::EFAULT => 14,
            Errno::ENOTDIR => 20,
            Errno::EINVAL => 22,
            Errno::EROFS => 30,
            Errno::ERANGE => 34,
            Errno::ENAMETOOLONG => 36,
            Errno::ENOSYS => 38,
            Errno::ELOOP => 40,
        }
    }

    /// The positive number the kernel assigns to this error.
    pub fn code(self) -> (c: u64)
        ensures
            c == self.spec_code(),
            1 <= c <= MAX_ERRNO,
    {
        match self {
            Errno::EPERM => 1,
            Errno::ENOENT => 2,
            Errno::ESRCH => 3,
            Errno::EIO => 5,
            Errno::E2BIG => 7,
            Errno::ENOEXEC => 8,
            Errno::ENOMEM => 12,
            Errno::EACCES => 13,
            Errno::EFAULT => 14,
            Errno::ENOTDIR => 20,
            Errno::EINVAL => 22,
            Errno::EROFS => 30,
            Errno::ERANGE => 34,
            Errno::ENAMETOOLONG => 36,
            Errno::ENOSYS => 38,
            Errno::ELOOP => 40,
        }
    }

    /// The register value that reports this error: the two's complement of
    /// its number in a 64-bit word.
    pub open spec fn spec_as_result(self) -> u64 {
        (0x1_0000_0000_0000_0000 - self.spec_code()) as u64
    }

    /// The register value that reports this error to a traced process.
    pub fn as_result(self) -> (w: u64)
        ensures
            w == self.spec_as_result(),
            is_error_result(w),
            error_number(w) == self.spec_code(),
    {
        u64::MAX - self.code() + 1
    }
}

/// Whether a result register holds an error, as the kernel encodes one:
/// read as a signed number it lies between -4095 and -1.
pub open spec fn is_error_result(w: u64) -> bool {
    w > u64::MAX - MAX_ERRNO
}

/// The error number that a result register encodes.
pub open spec fn error_number(w: u64) -> int
    recommends
        is_error_result(w),
{
    0x1_0000_0000_0000_0000 - w
}

/// Decides whether a result register holds an error.
pub fn result_is_error(w: u64) -> (b: bool)
    ensures
        b == is_error_result(w),
{
    w > u64::MAX - MAX_ERRNO
}

/// A breach of the order in which the stops of one tracee must arrive.
#[derive(Clone, Copy, Debug, PartialEq, Eq, Structural)]
pub enum ProtocolViolation {
    /// A syscall was entered while another one was still pending.
    DoubleEnter,
    /// A syscall was left although none was pending.
    ExitWithoutEnter,
    /// A stop arrived from a tracee that had already exited.
    StopAfterExit,
}

/// Everything that can go wrong while a stop is handled.
#[derive(Clone, Copy, Debug, PartialEq, Eq, Structural)]
pub enum Error {
    /// A guest path could not be mapped. The syscall is denied and the
    /// tracee sees the matching kernel error.
    PathResolution(PathError),
    /// The stops of a tracee arrived out of order. The tracee is detached.
    Protocol(ProtocolViolation),
    /// The registers or the memory of the tracee could not be reached: the
    /// tracee is taken to be gone.
    RegisterAccess,
    /// A plain kernel error.
    Kernel(Errno),
}

impl Error {
    /// The error number a tracee observes if this error is reported to it.
    pub open spec fn spec_errno(self) -> Errno {
        match self {
            Error::PathResolution(e) => e.spec_errno(),
            Error::Protocol(_) => Errno::EPERM,
            Error::RegisterAccess => Errno::ESRCH,
            Error::Kernel(e) => e,
        }
    }

    /// The error number a tracee observes if this error is reported to it.
    pub fn errno(self) -> (e: Errno)
        ensures
            e == self.spec_errno(),
    {
        match self {
            Error::PathResolution(e) => e.errno(),
            Error::Protocol(_) => Errno::EPERM,
            Error::RegisterAccess => Errno::ESRCH,
            Error::Kernel(e) => e,
        }
    }
}

} // verus!

//! Error vocabulary of the library.
//!
//! Kernel entries report failures as an errno value; [`MioError::from_errno`]
//! classifies that value into the error kinds the callers are promised:
//! resource exhaustion, incoherent arguments, unknown or duplicate
//! registrations, would-block, and a generic I/O kind that preserves the
//! errno.

use vstd::prelude::*;

verus! {

/// No such entry.
pub const ERRNO_ENOENT: i32 = 2;
/// Interrupted system call.
pub const ERRNO_EINTR: i32 = 4;
/// Unknown file descriptor.
pub const ERRNO_EBADF: i32 = 9;
/// Operation would block (EAGAIN / EWOULDBLOCK on this platform).
pub const ERRNO_EAGAIN: i32 = 11;
/// Out of kernel memory.
pub const ERRNO_ENOMEM: i32 = 12;
/// Entry already exists.
pub const ERRNO_EEXIST: i32 = 17;
/// Invalid argument.
pub const ERRNO_EINVAL: i32 = 22;
/// File table overflow, system-wide.
pub const ERRNO_ENFILE: i32 = 23;
/// Too many open files in this process.
pub const ERRNO_EMFILE: i32 = 24;

/// An error surfaced by the library.
#[derive(Clone, Copy, Debug, PartialEq, Eq, Structural)]
pub enum MioError {
    /// The kernel refused due to limits; carries the errno.
    Resource(i32),
    /// The caller supplied incoherent options or arguments.
    InvalidArgument,
    /// The registration or entry addressed does not exist.
    NotFound,
    /// A registration for this descriptor is already present.
    AlreadyExists,
    /// The operation would block on a non-blocking handle.
    WouldBlock,
    /// Any other OS error, with the errno preserved.
    Io(i32),
}

/// Result type used throughout the library.
pub type MioResult<T> = Result<T, MioError>;

/// The classification of an errno value into an error kind.
pub open spec fn spec_from_errno(e: i32) -> MioError {
    if e == ERRNO_EAGAIN {
        MioError::WouldBlock
    } else if e == ERRNO_ENOENT {
        MioError::NotFound
    } else if e == ERRNO_EEXIST {
        MioError::AlreadyExists
    } else if e == ERRNO_EINVAL {
        MioError::InvalidArgument
    } else if e == ERRNO_ENOMEM || e == ERRNO_ENFILE || e == ERRNO_EMFILE {
        MioError::Resource(e)
    } else {
        MioError::Io(e)
    }
}

impl MioError {
    /// Classifies an errno value into an error kind.
    pub fn from_errno(e: i32) -> (r: MioError)
        ensures
            r == spec_from_errno(e),
    {
        if e == ERRNO_EAGAIN {
            MioError::WouldBlock
        } else if e == ERRNO_ENOENT {
            MioError::NotFound
        } else if e == ERRNO_EEXIST {
            MioError::AlreadyExists
        } else if e == ERRNO_EINVAL {
            MioError::InvalidArgument
        } else if e == ERRNO_ENOMEM || e == ERRNO_ENFILE || e == ERRNO_EMFILE {
            MioError::Resource(e)
        } else {
            MioError::Io(e)
        }
    }

    /// True exactly on the would-block kind.
    pub fn is_would_block(&self) -> (r: bool)
        ensures
            r == (*self is WouldBlock),
    {
        match *self {
            MioError::WouldBlock => true,
            _ => false,
        }
    }
}

} // verus!

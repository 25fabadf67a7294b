//! The errors of the library: a kind, and the OS error code when one was
//! the cause.
use vstd::prelude::*;

verus! {

/// `errno` values (Linux) that have a kind of their own.
pub const EPERM: i32 = 1;
pub const ESRCH: i32 = 3;
pub const EACCES: i32 = 13;
pub const EINVAL: i32 = 22;
pub const EPIPE: i32 = 32;
pub const ENOSYS: i32 = 38;
pub const EOPNOTSUPP: i32 = 95;
pub const ECONNABORTED: i32 = 103;
pub const ETIMEDOUT: i32 = 110;

#[derive(Clone, Copy, Debug, PartialEq, Eq, Structural)]
pub enum ErrorKind {
    /// The pid is zero or negative.
    InvalidInput,
    /// No process has the pid.
    NoSuchProcess,
    /// The kernel lacks the mechanism (pidfd before Linux 5.3).
    Unsupported,
    PermissionDenied,
    /// The wait ended before the process did.
    TimedOut,
    /// The backend went away while the wait was pending.
    BrokenPipe,
    /// The event pump was told to stop.
    ConnectionAborted,
    /// The netlink socket returned no bytes.
    UnexpectedEof,
    /// A frame that is not an exit event.
    InvalidData,
    /// Any other OS error.
    Other,
}

/// The kind of error that an OS error code stands for.
pub open spec fn kind_of_errno(code: i32) -> ErrorKind {
    if code == ESRCH {
        ErrorKind::NoSuchProcess
    } else if code == ENOSYS || code == EOPNOTSUPP {
        ErrorKind::Unsupported
    } else if code == EPERM || code == EACCES {
        ErrorKind::PermissionDenied
    } else if code == EINVAL {
        ErrorKind::InvalidInput
    } else if code == EPIPE {
        ErrorKind::BrokenPipe
    } else if code == ECONNABORTED {
        ErrorKind::ConnectionAborted
    } else if code == ETIMEDOUT {
        ErrorKind::TimedOut
    } else {
        ErrorKind::Other
    }
}

#[derive(Clone, Copy, Debug, PartialEq, Eq, Structural)]
pub struct Error {
    pub kind: ErrorKind,
    /// The OS error code, kept as it came.
    pub os_code: Option<i32>,
}

impl Error {
    /// The error for an OS error code.
    pub fn from_raw_os_error(code: i32) -> (r: Error)
        ensures
            r.kind == kind_of_errno(code),
            r.os_code == Some(code),
    {
        let kind = if code == ESRCH {
            ErrorKind::NoSuchProcess
        } else if code == ENOSYS || code == EOPNOTSUPP {
            ErrorKind::Unsupported
        } else if code == EPERM || code == EACCES {
            ErrorKind::PermissionDenied
        } else if code == EINVAL {
            ErrorKind::InvalidInput
        } else if code == EPIPE {
            ErrorKind::BrokenPipe
        } else if code == ECONNABORTED {
            ErrorKind::ConnectionAborted
        } else if code == ETIMEDOUT {
            ErrorKind::TimedOut
        } else {
            ErrorKind::Other
        };
        Error { kind, os_code: Some(code) }
    }

    /// An error of `kind` that no OS error code caused.
    pub fn from_kind(kind: ErrorKind) -> (r: Error)
        ensures
            r.kind == kind,
            r.os_code is None,
    {
        Error { kind, os_code: None }
    }

    pub fn kind(&self) -> (r: ErrorKind)
        ensures
            r == self.kind,
    {
        self.kind
    }

    pub fn raw_os_error(&self) -> (r: Option<i32>)
        ensures
            r == self.os_code,
    {
        self.os_code
    }
}

} // verus!

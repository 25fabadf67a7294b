//! The rules of the netlink backend around its system calls: the existence
//! probe, what a waiter's receive means, what a read of the socket gives,
//! and when the event pump goes on.
use vstd::prelude::*;
use crate::connector::{parse_netlink_event_message, parsed_event};
use crate::error::{Error, ErrorKind, ESRCH};
use crate::incomplete_array::IncompleteArray;
use crate::pid::Pid;

verus! {

/// Whether a process exists, given what `kill(pid, 0)` gave: only "no such
/// process" says that it does not.
pub open spec fn exists_after_kill(probe: Result<(), i32>) -> bool {
    match probe {
        Ok(()) => true,
        Err(code) => code != ESRCH,
    }
}

/// `process_exists`, once `kill(pid, 0)` gave `probe` (the OS error code on
/// failure).
pub fn process_exists_after(probe: Result<(), i32>) -> (r: bool)
    ensures
        r == exists_after_kill(probe),
{
    match probe {
        Ok(()) => true,
        Err(code) => code != ESRCH,
    }
}

/// The check made before registering a waiter: an exit that happened
/// before the filter is attached is never reported, so a process that is
/// already gone fails at once with "no such process".
pub open spec fn precheck_of(exists: bool) -> Result<(), Error> {
    if exists {
        Ok(())
    } else {
        Err(Error { kind: ErrorKind::NoSuchProcess, os_code: Some(ESRCH) })
    }
}

pub fn precheck(exists: bool) -> (r: Result<(), Error>)
    ensures
        r == precheck_of(exists),
{
    if exists {
        Ok(())
    } else {
        Err(Error::from_raw_os_error(ESRCH))
    }
}

/// How a waiter's receive on its notifier ended.
#[derive(Clone, Copy, Debug, PartialEq, Eq, Structural)]
pub enum RecvOutcome {
    /// The pump sent the exit notice.
    Notified,
    /// The timeout passed first.
    TimedOut,
    /// The notifier was dropped unsent: the backend went away.
    Disconnected,
}

pub open spec fn recv_result_of(o: RecvOutcome) -> Result<(), Error> {
    match o {
        RecvOutcome::Notified => Ok(()),
        RecvOutcome::TimedOut => Err(Error { kind: ErrorKind::TimedOut, os_code: None }),
        RecvOutcome::Disconnected => Err(Error { kind: ErrorKind::BrokenPipe, os_code: None }),
    }
}

/// What `waitpid` on the netlink backend returns once the receive ended
/// with `o`.
pub fn recv_result(o: RecvOutcome) -> (r: Result<(), Error>)
    ensures
        r == recv_result_of(o),
{
    match o {
        RecvOutcome::Notified => Ok(()),
        RecvOutcome::TimedOut => Err(Error::from_kind(ErrorKind::TimedOut)),
        RecvOutcome::Disconnected => Err(Error::from_kind(ErrorKind::BrokenPipe)),
    }
}

/// What a poll over the socket and the abort pipe reported.
#[derive(Clone, Copy, Debug, PartialEq, Eq, Structural)]
pub enum Readiness {
    /// Nothing became ready before the timeout.
    TimedOut,
    /// The abort pipe became readable: the backend is shutting down.
    Aborted,
    /// The socket can be read.
    Readable,
}

/// What a poll over the socket and the abort pipe reported, given the
/// number of ready descriptors and whether the abort pipe is among them:
/// none ready means the timeout passed, and the abort pipe wins over the
/// socket.
pub fn readiness_of(ready: usize, aborter_ready: bool) -> (r: Readiness)
    ensures
        ready == 0 ==> r == Readiness::TimedOut,
        ready > 0 && aborter_ready ==> r == Readiness::Aborted,
        ready > 0 && !aborter_ready ==> r == Readiness::Readable,
{
    if ready == 0 {
        Readiness::TimedOut
    } else if aborter_ready {
        Readiness::Aborted
    } else {
        Readiness::Readable
    }
}

pub open spec fn readiness_result_of(r: Readiness) -> Result<(), Error> {
    match r {
        Readiness::TimedOut => Err(Error { kind: ErrorKind::TimedOut, os_code: None }),
        Readiness::Aborted => Err(Error { kind: ErrorKind::ConnectionAborted, os_code: None }),
        Readiness::Readable => Ok(()),
    }
}

/// Whether to read the socket after a poll that reported `ready`, or the
/// error that ends the read. The abort pipe wins over the socket.
pub fn readiness_result(ready: Readiness) -> (r: Result<(), Error>)
    ensures
        r == readiness_result_of(ready),
{
    match ready {
        Readiness::TimedOut => Err(Error::from_kind(ErrorKind::TimedOut)),
        Readiness::Aborted => Err(Error::from_kind(ErrorKind::ConnectionAborted)),
        Readiness::Readable => Ok(()),
    }
}

/// The event that a read of the socket gives: the read's own error; "end of
/// file" for zero bytes; the exiting thread group of an exit event; and
/// "invalid data" for any other frame.
pub open spec fn read_event_of(received: Result<usize, Error>, buf: Seq<u8>) -> Result<int, Error> {
    match received {
        Err(e) => Err(e),
        Ok(n) => if n == 0 {
            Err(Error { kind: ErrorKind::UnexpectedEof, os_code: None })
        } else {
            match parsed_event(buf.subrange(0, n as int)) {
                Some(v) => Ok(v),
                None => Err(Error { kind: ErrorKind::InvalidData, os_code: None }),
            }
        },
    }
}

/// The event read into `buf`, once `recv` gave `received` (the number of
/// bytes on success).
pub fn read_event(received: Result<usize, Error>, buf: &[u8]) -> (r: Result<Pid, Error>)
    requires
        received matches Ok(n) ==> n <= buf@.len(),
    ensures
        r matches Ok(p) ==> read_event_of(received, buf@) == Ok::<int, Error>(p.value()),
        r matches Err(e) ==> read_event_of(received, buf@) == Err::<int, Error>(e),
{
    match received {
        Err(e) => Err(e),
        Ok(n) => {
            if n == 0 {
                return Err(Error::from_kind(ErrorKind::UnexpectedEof));
            }
            let frame = IncompleteArray::new(0).as_slice(buf, n);
            match parse_netlink_event_message(frame.as_slice()) {
                Some(p) => Ok(p),
                None => Err(Error::from_kind(ErrorKind::InvalidData)),
            }
        },
    }
}

/// Whether the event pump reads again.
#[derive(Clone, Copy, Debug, PartialEq, Eq, Structural)]
pub enum PumpControl {
    Continue,
    Exit,
}

/// After a read that failed with `e`: a frame that is not an exit event is
/// skipped; anything else (the abort signal, the end of the socket, an OS
/// error) ends the pump, without a panic.
pub open spec fn after_read_error_of(e: Error) -> PumpControl {
    if e.kind == ErrorKind::InvalidData || e.kind == ErrorKind::TimedOut {
        PumpControl::Continue
    } else {
        PumpControl::Exit
    }
}

pub fn after_read_error(e: Error) -> (r: PumpControl)
    ensures
        r == after_read_error_of(e),
{
    if e.kind == ErrorKind::InvalidData || e.kind == ErrorKind::TimedOut {
        PumpControl::Continue
    } else {
        PumpControl::Exit
    }
}

/// After an exit was dispatched and the filter re-attached with result
/// `attached`: a failed attach means the socket is going away, and the pump
/// ends.
pub fn after_dispatch(attached: Result<(), Error>) -> (r: PumpControl)
    ensures
        r == (if attached is Ok {
            PumpControl::Continue
        } else {
            PumpControl::Exit
        }),
{
    match attached {
        Ok(()) => PumpControl::Continue,
        Err(_) => PumpControl::Exit,
    }
}

} // verus!

//! The rules of the top-level `waitpid`: which pids are valid, and when the
//! netlink backend takes over from the pidfd one.
use vstd::prelude::*;
use crate::connector::parsed_event;
use crate::error::{kind_of_errno, Error, ErrorKind, ESRCH};
use crate::netlink::{exists_after_kill, precheck_of, read_event_of, recv_result_of, RecvOutcome};
use crate::pid::Pid;
use crate::pidfd::{poll_timeout_of, wait_outcome_of, ExitLatch, POLL_FOREVER};
use crate::registry::{after_interest, waiters_of};

verus! {

/// The `Pid` for a pid given as `u32`: valid when it is positive as an
/// `i32`, that is between 1 and `i32::MAX`.
pub fn validate_pid(pid: u32) -> (r: Result<Pid, Error>)
    ensures
        (0 < pid <= i32::MAX) <==> r is Ok,
        r matches Ok(p) ==> p.value() == pid as int,
        r matches Err(e) ==> e == (Error { kind: ErrorKind::InvalidInput, os_code: None }),
{
    if pid == 0 || pid > i32::MAX as u32 {
        return Err(Error::from_kind(ErrorKind::InvalidInput));
    }
    match Pid::from_raw(pid as i32) {
        Some(p) => Ok(p),
        None => Err(Error::from_kind(ErrorKind::InvalidInput)),
    }
}

/// What `waitpid` does after the pidfd backend returned.
#[derive(Clone, Copy, Debug)]
pub enum Fallback {
    /// Return this result.
    Done(Result<(), Error>),
    /// The kernel has no pidfd: wait through netlink instead.
    Netlink,
}

pub open spec fn after_pidfd_of(r: Result<(), Error>) -> Fallback {
    match r {
        Err(e) => if e.kind == ErrorKind::Unsupported {
            Fallback::Netlink
        } else {
            Fallback::Done(r)
        },
        Ok(()) => Fallback::Done(r),
    }
}

/// Only "unsupported" sends `waitpid` on to netlink; any other result of
/// the pidfd backend is returned as it is.
pub fn after_pidfd(r: Result<(), Error>) -> (f: Fallback)
    ensures
        f == after_pidfd_of(r),
{
    match r {
        Err(e) => if e.kind == ErrorKind::Unsupported {
            Fallback::Netlink
        } else {
            Fallback::Done(r)
        },
        Ok(()) => Fallback::Done(r),
    }
}

/// A wait with a zero timeout on a process that has not exited times out:
/// the pidfd is polled without blocking and is not readable, which is
/// "timed out", and that is returned without trying netlink; on netlink the
/// receive times out, with the same result.
pub proof fn lemma_zero_timeout_times_out()
    ensures
        poll_timeout_of(Some(0u128)) == 0,
        after_pidfd_of(wait_outcome_of(Ok::<usize, Error>(0))) == Fallback::Done(
            Err(Error { kind: ErrorKind::TimedOut, os_code: None }),
        ),
        recv_result_of(RecvOutcome::TimedOut) == Err::<(), Error>(
            (Error { kind: ErrorKind::TimedOut, os_code: None }),
        ),
{
}

/// A wait without a timeout on a process that exits succeeds: the pidfd is
/// polled with no timeout and turns readable, which is success. On netlink,
/// once `interest` has registered notifier `n` for the pid (the pending map
/// becomes `after_interest(pending, pid, n)`), the frame of the exit parses
/// to that pid, `take_exited` on it hands back a list that holds `n`, and the
/// notice received is success.
pub proof fn lemma_exit_ends_wait<N>(
    ready: usize,
    pid: Pid,
    received: usize,
    frame: Seq<u8>,
    pending: Map<int, Seq<N>>,
    n: N,
)
    requires
        ready > 0,
        received == frame.len(),
        received > 0,
        parsed_event(frame) == Some(pid.value()),
    ensures
        poll_timeout_of(None) == POLL_FOREVER,
        after_pidfd_of(wait_outcome_of(Ok::<usize, Error>(ready))) == Fallback::Done(Ok(())),
        (read_event_of(Ok::<usize, Error>(received), frame) matches Ok(v) && waiters_of(
            after_interest(pending, pid.value(), n),
            v,
        ).contains(n)),
        recv_result_of(RecvOutcome::Notified) == Ok::<(), Error>(()),
{
    assert(frame.subrange(0, frame.len() as int) =~= frame);
    let before = waiters_of(pending, pid.value());
    assert(before.push(n)[before.len() as int] == n);
}

/// A pid that no process has gives "no such process" on both paths:
/// `pidfd_open` fails with `ESRCH`, which is returned without trying
/// netlink; and the existence probe of the netlink path fails the same way
/// before any waiter is registered.
pub proof fn lemma_absent_process_reported()
    ensures
        kind_of_errno(ESRCH) == ErrorKind::NoSuchProcess,
        after_pidfd_of(Err(Error { kind: kind_of_errno(ESRCH), os_code: Some(ESRCH) }))
            == Fallback::Done(Err(Error { kind: ErrorKind::NoSuchProcess, os_code: Some(ESRCH) })),
        !exists_after_kill(Err(ESRCH)),
        precheck_of(exists_after_kill(Err(ESRCH))) == Err::<(), Error>(
            (Error { kind: ErrorKind::NoSuchProcess, os_code: Some(ESRCH) }),
        ),
{
}

/// A waiter whose backend is dropped before the exit sees its notifier
/// dropped unsent, and gets "broken pipe".
pub proof fn lemma_shutdown_breaks_pipe()
    ensures
        recv_result_of(RecvOutcome::Disconnected) == Err::<(), Error>(
            (Error { kind: ErrorKind::BrokenPipe, os_code: None }),
        ),
{
}

} // verus!

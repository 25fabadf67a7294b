//! The rules of waiting on a pidfd: how long to poll, what a poll means, and
//! the exited latch of a handle. The caller opens the pidfd and polls it.
use vstd::prelude::*;
use crate::error::{Error, ErrorKind};

verus! {

/// The poll timeout that never expires.
pub const POLL_FOREVER: i32 = -1;

/// The poll timeout for a wait of `millis` milliseconds: forever for none,
/// and at most `i32::MAX`.
pub open spec fn poll_timeout_of(millis: Option<u128>) -> i32 {
    match millis {
        None => POLL_FOREVER,
        Some(ms) => if ms > i32::MAX as u128 {
            i32::MAX
        } else {
            ms as i32
        },
    }
}

/// What a wait returns when `poll` on the pidfd gave `polled`: the pidfd is
/// readable once the process has exited, and no ready descriptor means the
/// timeout passed first.
pub open spec fn wait_outcome_of(polled: Result<usize, Error>) -> Result<(), Error> {
    match polled {
        Ok(n) => if n == 0 {
            Err(Error { kind: ErrorKind::TimedOut, os_code: None })
        } else {
            Ok(())
        },
        Err(e) => Err(e),
    }
}

/// The backend that waits through a pidfd.
#[derive(Clone, Copy, Debug, PartialEq, Eq, Structural)]
pub struct PidFdBackend;

impl PidFdBackend {
    /// The timeout to hand to `poll` for a wait of `millis` milliseconds.
    pub fn poll_timeout(millis: Option<u128>) -> (r: i32)
        ensures
            r == poll_timeout_of(millis),
    {
        match millis {
            None => POLL_FOREVER,
            Some(ms) => if ms > i32::MAX as u128 {
                i32::MAX
            } else {
                ms as i32
            },
        }
    }

    /// What `waitpid` returns once `poll` on the pidfd gave `polled`.
    pub fn wait_outcome(polled: Result<usize, Error>) -> (r: Result<(), Error>)
        ensures
            r == wait_outcome_of(polled),
    {
        match polled {
            Ok(n) => if n == 0 {
                Err(Error::from_kind(ErrorKind::TimedOut))
            } else {
                Ok(())
            },
            Err(e) => Err(e),
        }
    }
}

/// The one-shot exited latch of a pidfd handle: false until a wait or a
/// probe sees the pidfd readable, true from then on.
#[derive(Clone, Copy, Debug, PartialEq, Eq, Structural)]
pub struct ExitLatch {
    pub exited: bool,
}

impl ExitLatch {
    /// The latch and the result of `is_exited` after a probe (`poll` with a
    /// zero timeout) that gave `polled`. A set latch answers without
    /// looking at the probe.
    pub open spec fn after_probe(self, polled: Result<usize, Error>) -> (ExitLatch, Result<bool, Error>) {
        if self.exited {
            (self, Ok(true))
        } else {
            match wait_outcome_of(polled) {
                Ok(()) => (ExitLatch { exited: true }, Ok(true)),
                Err(e) => if e.kind == ErrorKind::TimedOut {
                    (self, Ok(false))
                } else {
                    (self, Err(e))
                },
            }
        }
    }

    /// The latch and the result of `wait` after `poll` gave `polled`.
    pub open spec fn after_wait(self, polled: Result<usize, Error>) -> (ExitLatch, Result<(), Error>) {
        if self.exited {
            (self, Ok(()))
        } else {
            match wait_outcome_of(polled) {
                Ok(()) => (ExitLatch { exited: true }, Ok(())),
                Err(e) => (self, Err(e)),
            }
        }
    }

    pub fn new() -> (r: ExitLatch)
        ensures
            !r.exited,
    {
        ExitLatch { exited: false }
    }

    /// The answer of `is_exited` that needs no system call: `true` once the
    /// latch is set, none before.
    pub fn cached(&self) -> (r: Option<bool>)
        ensures
            self.exited <==> r == Some(true),
            !self.exited <==> r is None,
    {
        if self.exited {
            Some(true)
        } else {
            None
        }
    }

    /// `is_exited`, once a probe of the pidfd gave `polled`.
    pub fn record_probe(&mut self, polled: Result<usize, Error>) -> (r: Result<bool, Error>)
        ensures
            (*final(self), r) == old(self).after_probe(polled),
    {
        if self.exited {
            return Ok(true);
        }
        match PidFdBackend::wait_outcome(polled) {
            Ok(()) => {
                self.exited = true;
                Ok(true)
            },
            Err(e) => if e.kind == ErrorKind::TimedOut {
                Ok(false)
            } else {
                Err(e)
            },
        }
    }

    /// `wait`, once `poll` on the pidfd gave `polled`.
    pub fn record_wait(&mut self, polled: Result<usize, Error>) -> (r: Result<(), Error>)
        ensures
            (*final(self), r) == old(self).after_wait(polled),
    {
        if self.exited {
            return Ok(());
        }
        match PidFdBackend::wait_outcome(polled) {
            Ok(()) => {
                self.exited = true;
                Ok(())
            },
            Err(e) => Err(e),
        }
    }
}

/// `is_exited` is idempotent: once it has answered `true`, the latch is set,
/// the answer is known without a system call, and every later call answers
/// `true` whatever a probe would give, and leaves the latch as it is.
pub proof fn lemma_is_exited_idempotent(
    latch: ExitLatch,
    first: Result<usize, Error>,
    later: Result<usize, Error>,
)
    requires
        latch.after_probe(first).1 == Ok::<bool, Error>(true),
    ensures
        latch.after_probe(first).0.exited,
        latch.after_probe(first).0.after_probe(later) == (latch.after_probe(first).0, Ok::<bool, Error>(true)),
        latch.after_probe(first).0.after_wait(later) == (latch.after_probe(first).0, Ok::<(), Error>(())),
{
}

} // verus!

use waitpidx::facade::{after_pidfd, validate_pid, Fallback};
use waitpidx::netlink::{
    after_dispatch, after_read_error, precheck, process_exists_after, read_event, readiness_of,
    readiness_result,
    recv_result, PumpControl, Readiness, RecvOutcome,
};
use waitpidx::pidfd::{ExitLatch, PidFdBackend};
use waitpidx::{Error, ErrorKind, Pid};

fn kind_err(kind: ErrorKind) -> Error {
    Error { kind, os_code: None }
}

#[test]
fn pid_from_raw_rejects_non_positive() {
    assert_eq!(Pid::from_raw(1).unwrap().as_raw(), 1);
    assert_eq!(Pid::from_raw(i32::MAX).unwrap().as_raw(), i32::MAX);
    assert!(Pid::from_raw(0).is_none());
    assert!(Pid::from_raw(-5).is_none());
}

#[test]
fn validate_pid_range() {
    assert_eq!(validate_pid(1).unwrap().as_raw(), 1);
    assert_eq!(validate_pid(0x7fff_ffff).unwrap().as_raw(), i32::MAX);
    assert_eq!(validate_pid(0).unwrap_err(), kind_err(ErrorKind::InvalidInput));
    assert_eq!(validate_pid(0x8000_0000).unwrap_err(), kind_err(ErrorKind::InvalidInput));
    assert_eq!(validate_pid(u32::MAX).unwrap_err().kind(), ErrorKind::InvalidInput);
}

#[test]
fn errno_mapping() {
    let cases = [
        (3, ErrorKind::NoSuchProcess),
        (38, ErrorKind::Unsupported),
        (95, ErrorKind::Unsupported),
        (1, ErrorKind::PermissionDenied),
        (13, ErrorKind::PermissionDenied),
        (22, ErrorKind::InvalidInput),
        (32, ErrorKind::BrokenPipe),
        (103, ErrorKind::ConnectionAborted),
        (110, ErrorKind::TimedOut),
        (12, ErrorKind::Other),
    ];
    for (code, kind) in cases {
        let e = Error::from_raw_os_error(code);
        assert_eq!(e.kind(), kind);
        assert_eq!(e.raw_os_error(), Some(code));
    }
    assert_eq!(Error::from_kind(ErrorKind::TimedOut).raw_os_error(), None);
}

#[test]
fn poll_timeout_conversion() {
    assert_eq!(PidFdBackend::poll_timeout(None), -1);
    assert_eq!(PidFdBackend::poll_timeout(Some(0)), 0);
    assert_eq!(PidFdBackend::poll_timeout(Some(1500)), 1500);
    assert_eq!(PidFdBackend::poll_timeout(Some(i32::MAX as u128)), i32::MAX);
    assert_eq!(PidFdBackend::poll_timeout(Some(i32::MAX as u128 + 1)), i32::MAX);
    assert_eq!(PidFdBackend::poll_timeout(Some(u128::MAX)), i32::MAX);
}

#[test]
fn zero_timeout_on_running_process_times_out() {
    let r = PidFdBackend::wait_outcome(Ok(0));
    assert_eq!(r, Err(kind_err(ErrorKind::TimedOut)));
    assert!(matches!(after_pidfd(r), Fallback::Done(Err(e)) if e.kind == ErrorKind::TimedOut));
}

#[test]
fn readable_pidfd_means_exited() {
    assert_eq!(PidFdBackend::wait_outcome(Ok(1)), Ok(()));
    let e = Error::from_raw_os_error(4);
    assert_eq!(PidFdBackend::wait_outcome(Err(e)), Err(e));
}

#[test]
fn absent_process_is_reported_without_fallback() {
    let r = Err(Error::from_raw_os_error(3));
    match after_pidfd(r) {
        Fallback::Done(Err(e)) => assert_eq!(e.kind, ErrorKind::NoSuchProcess),
        _ => panic!("expected no fallback"),
    }
    assert!(!process_exists_after(Err(3)));
    assert_eq!(precheck(false).unwrap_err().kind, ErrorKind::NoSuchProcess);
    assert_eq!(precheck(false).unwrap_err().os_code, Some(3));
}

#[test]
fn unsupported_pidfd_falls_back_to_netlink() {
    assert!(matches!(after_pidfd(Err(Error::from_raw_os_error(38))), Fallback::Netlink));
    assert!(matches!(after_pidfd(Err(Error::from_raw_os_error(95))), Fallback::Netlink));
    assert!(matches!(after_pidfd(Ok(())), Fallback::Done(Ok(()))));
    assert!(matches!(
        after_pidfd(Err(Error::from_raw_os_error(1))),
        Fallback::Done(Err(e)) if e.kind == ErrorKind::PermissionDenied
    ));
}

#[test]
fn existence_probe() {
    assert!(process_exists_after(Ok(())));
    assert!(process_exists_after(Err(1)));
    assert!(!process_exists_after(Err(3)));
    assert_eq!(precheck(true), Ok(()));
}

#[test]
fn receive_outcomes() {
    assert_eq!(recv_result(RecvOutcome::Notified), Ok(()));
    assert_eq!(recv_result(RecvOutcome::TimedOut), Err(kind_err(ErrorKind::TimedOut)));
    assert_eq!(recv_result(RecvOutcome::Disconnected), Err(kind_err(ErrorKind::BrokenPipe)));
}

#[test]
fn readiness_outcomes() {
    assert_eq!(readiness_result(Readiness::Readable), Ok(()));
    assert_eq!(readiness_result(Readiness::TimedOut), Err(kind_err(ErrorKind::TimedOut)));
    assert_eq!(
        readiness_result(Readiness::Aborted),
        Err(kind_err(ErrorKind::ConnectionAborted))
    );
}

fn exit_frame(tgid: u32) -> Vec<u8> {
    let mut b = vec![0u8; 76];
    b[0..4].copy_from_slice(&76u32.to_le_bytes());
    b[4..6].copy_from_slice(&3u16.to_le_bytes());
    b[16..20].copy_from_slice(&1u32.to_le_bytes());
    b[20..24].copy_from_slice(&1u32.to_le_bytes());
    b[32..34].copy_from_slice(&40u16.to_le_bytes());
    b[36..40].copy_from_slice(&0x8000_0000u32.to_le_bytes());
    b[56..60].copy_from_slice(&tgid.to_le_bytes());
    b
}

#[test]
fn read_event_outcomes() {
    let mut buf = vec![0u8; 16384];
    let f = exit_frame(2024);
    buf[..76].copy_from_slice(&f);
    assert_eq!(read_event(Ok(76), &buf).unwrap().as_raw(), 2024);
    assert_eq!(read_event(Ok(0), &buf).unwrap_err(), kind_err(ErrorKind::UnexpectedEof));
    assert_eq!(read_event(Ok(60), &buf).unwrap_err(), kind_err(ErrorKind::InvalidData));
    buf[4] = 2;
    assert_eq!(read_event(Ok(76), &buf).unwrap_err(), kind_err(ErrorKind::InvalidData));
    let e = Error::from_raw_os_error(4);
    assert_eq!(read_event(Err(e), &buf).unwrap_err(), e);
}

#[test]
fn pump_control() {
    assert_eq!(after_read_error(kind_err(ErrorKind::InvalidData)), PumpControl::Continue);
    assert_eq!(after_read_error(kind_err(ErrorKind::TimedOut)), PumpControl::Continue);
    assert_eq!(after_read_error(kind_err(ErrorKind::ConnectionAborted)), PumpControl::Exit);
    assert_eq!(after_read_error(kind_err(ErrorKind::UnexpectedEof)), PumpControl::Exit);
    assert_eq!(after_read_error(Error::from_raw_os_error(9)), PumpControl::Exit);
    assert_eq!(after_dispatch(Ok(())), PumpControl::Continue);
    assert_eq!(after_dispatch(Err(Error::from_raw_os_error(9))), PumpControl::Exit);
}

#[test]
fn exited_latch_is_idempotent() {
    let mut latch = ExitLatch::new();
    assert_eq!(latch.cached(), None);
    assert_eq!(latch.record_probe(Ok(0)), Ok(false));
    assert_eq!(latch.cached(), None);
    let e = Error::from_raw_os_error(9);
    assert_eq!(latch.record_probe(Err(e)), Err(e));
    assert_eq!(latch.record_probe(Ok(1)), Ok(true));
    assert_eq!(latch.cached(), Some(true));
    assert_eq!(latch.record_probe(Ok(0)), Ok(true));
    assert_eq!(latch.record_probe(Err(e)), Ok(true));
    assert_eq!(latch.record_wait(Ok(0)), Ok(()));
    assert_eq!(latch.cached(), Some(true));
}

#[test]
fn wait_sets_latch() {
    let mut latch = ExitLatch::new();
    assert_eq!(latch.record_wait(Ok(0)), Err(kind_err(ErrorKind::TimedOut)));
    assert_eq!(latch.cached(), None);
    assert_eq!(latch.record_wait(Ok(1)), Ok(()));
    assert_eq!(latch.cached(), Some(true));
}

#[test]
fn readiness_from_poll_counts() {
    assert_eq!(readiness_of(0, false), Readiness::TimedOut);
    assert_eq!(readiness_of(0, true), Readiness::TimedOut);
    assert_eq!(readiness_of(1, true), Readiness::Aborted);
    assert_eq!(readiness_of(2, true), Readiness::Aborted);
    assert_eq!(readiness_of(1, false), Readiness::Readable);
}

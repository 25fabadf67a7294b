//! Frames of the proc connector: the control messages sent to the kernel and
//! the process events it multicasts back.
use vstd::prelude::*;
use crate::bpf::reports_exit_of;
use crate::incomplete_array::IncompleteArray;
use crate::pid::Pid;
use crate::wire::{le16_at, le16_of, le32_at, le32_of};

verus! {

/// `nlmsg_type` of a message that ends a multipart sequence.
pub const NLMSG_DONE: u16 = 3;
/// Connector index and value of the process event connector.
pub const CN_IDX_PROC: u32 = 1;
pub const CN_VAL_PROC: u32 = 1;
/// Multicast subscription operations.
pub const PROC_CN_MCAST_LISTEN: u32 = 1;
pub const PROC_CN_MCAST_IGNORE: u32 = 2;
/// `what` of an exit event.
pub const PROC_EVENT_EXIT: u32 = 0x8000_0000;

/// Sizes of `nlmsghdr`, `cn_msg` (without its trailing data) and `proc_event`.
pub const NLMSGHDR_SIZE: usize = 16;
pub const CN_MSG_SIZE: usize = 20;
pub const PROC_EVENT_SIZE: usize = 40;

/// Offsets of the `nlmsghdr` fields.
pub const NLMSG_LEN_OFFSET: usize = 0;
pub const NLMSG_TYPE_OFFSET: usize = 4;
pub const NLMSG_PID_OFFSET: usize = 12;

/// Offsets of the `cn_msg` fields within a frame.
pub const CN_IDX_OFFSET: usize = NLMSGHDR_SIZE;
pub const CN_VAL_OFFSET: usize = NLMSGHDR_SIZE + 4;
pub const CN_LEN_OFFSET: usize = NLMSGHDR_SIZE + 16;
pub const CN_DATA_OFFSET: usize = NLMSGHDR_SIZE + CN_MSG_SIZE;

/// Offsets of the `proc_event` fields that are read: `what`, and the
/// `process_tgid` of the exit event that follows `what`, `cpu` and
/// `timestamp_ns` and the exiting thread's `process_pid`.
pub const EVENT_WHAT_OFFSET: usize = CN_DATA_OFFSET;
pub const EVENT_TGID_OFFSET: usize = CN_DATA_OFFSET + 20;

/// Length of a control frame: the headers and a 32-bit operation.
pub const CONTROL_FRAME_SIZE: usize = NLMSGHDR_SIZE + CN_MSG_SIZE + 4;
/// Length of a frame that carries one process event.
pub const EVENT_FRAME_SIZE: usize = NLMSGHDR_SIZE + CN_MSG_SIZE + PROC_EVENT_SIZE;
/// Receive buffer size that holds any connector message.
pub const CONNECTOR_MAX_MSG_SIZE: usize = 16384;

/// A multicast subscription operation.
#[derive(Clone, Copy, Debug, PartialEq, Eq, Structural)]
pub enum McastOp {
    /// Start receiving process events.
    Listen,
    /// Stop receiving them.
    Ignore,
}

impl McastOp {
    pub open spec fn spec_code(self) -> u32 {
        match self {
            McastOp::Listen => PROC_CN_MCAST_LISTEN,
            McastOp::Ignore => PROC_CN_MCAST_IGNORE,
        }
    }

    /// The value the kernel knows the operation by.
    pub fn code(self) -> (r: u32)
        ensures
            r == self.spec_code(),
    {
        match self {
            McastOp::Listen => PROC_CN_MCAST_LISTEN,
            McastOp::Ignore => PROC_CN_MCAST_IGNORE,
        }
    }
}

/// The little-endian bytes of `x`.
pub open spec fn le16_bytes(x: u16) -> Seq<u8> {
    seq![(x & 0xff) as u8, (x >> 8u16) as u8]
}

pub open spec fn le32_bytes(x: u32) -> Seq<u8> {
    seq![(x & 0xff) as u8, ((x >> 8u32) & 0xff) as u8, ((x >> 16u32) & 0xff) as u8, (x >> 24u32) as u8]
}

/// The control frame that asks for `op`, sent from process `self_pid`:
/// `nlmsghdr`, then `cn_msg` for the process connector, then the operation.
pub open spec fn control_frame(op: McastOp, self_pid: u32) -> Seq<u8> {
    le32_bytes(CONTROL_FRAME_SIZE as u32) + le16_bytes(NLMSG_DONE) + le16_bytes(0) + le32_bytes(0)
        + le32_bytes(self_pid) + le32_bytes(CN_IDX_PROC) + le32_bytes(CN_VAL_PROC) + le32_bytes(0)
        + le32_bytes(0) + le16_bytes(4) + le16_bytes(0) + le32_bytes(op.spec_code())
}

fn push_le16(buf: &mut Vec<u8>, x: u16)
    ensures
        final(buf)@ == old(buf)@ + le16_bytes(x),
{
    buf.push((x & 0xff) as u8);
    buf.push((x >> 8) as u8);
    assert(buf@ =~= old(buf)@ + le16_bytes(x));
}

fn push_le32(buf: &mut Vec<u8>, x: u32)
    ensures
        final(buf)@ == old(buf)@ + le32_bytes(x),
{
    buf.push((x & 0xff) as u8);
    buf.push(((x >> 8) & 0xff) as u8);
    buf.push(((x >> 16) & 0xff) as u8);
    buf.push((x >> 24) as u8);
    assert(buf@ =~= old(buf)@ + le32_bytes(x));
}

/// Builds the frame that subscribes to (`Listen`) or unsubscribes from
/// (`Ignore`) process events, for the socket of process `self_pid`.
pub fn make_netlink_control_message(op: McastOp, self_pid: u32) -> (r: Vec<u8>)
    ensures
        r@ == control_frame(op, self_pid),
        r@.len() == CONTROL_FRAME_SIZE,
{
    let mut buf: Vec<u8> = Vec::new();
    push_le32(&mut buf, CONTROL_FRAME_SIZE as u32);
    push_le16(&mut buf, NLMSG_DONE);
    push_le16(&mut buf, 0);
    push_le32(&mut buf, 0);
    push_le32(&mut buf, self_pid);
    push_le32(&mut buf, CN_IDX_PROC);
    push_le32(&mut buf, CN_VAL_PROC);
    push_le32(&mut buf, 0);
    push_le32(&mut buf, 0);
    push_le16(&mut buf, 4);
    push_le16(&mut buf, 0);
    let data = IncompleteArray::new(CN_DATA_OFFSET);
    let mut op_bytes: Vec<u8> = Vec::new();
    push_le32(&mut op_bytes, op.code());
    data.as_mut_slice(&mut buf, op_bytes.as_slice());
    assert(buf@ =~= control_frame(op, self_pid));
    buf
}

proof fn lemma_le16_round_trip(x: u16)
    ensures
        le16_of((x & 0xff) as u8, (x >> 8u16) as u8) == x,
{
    assert(((((x & 0xff) as u8) as u16) | ((((x >> 8u16) as u8) as u16) << 8u16)) == x)
        by (bit_vector);
}

proof fn lemma_le32_round_trip(x: u32)
    ensures
        le32_of((x & 0xff) as u8, ((x >> 8u32) & 0xff) as u8, ((x >> 16u32) & 0xff) as u8, (x
            >> 24u32) as u8) == x,
{
    assert(((((x & 0xff) as u8) as u32) | (((((x >> 8u32) & 0xff) as u8) as u32) << 8u32) | ((((
    (x >> 16u32) & 0xff) as u8) as u32) << 16u32) | ((((x >> 24u32) as u8) as u32) << 24u32)) == x)
        by (bit_vector);
}

/// Read back, the control frame holds the fields it was built from.
pub proof fn lemma_control_frame_fields(op: McastOp, self_pid: u32)
    ensures
        control_frame(op, self_pid).len() == CONTROL_FRAME_SIZE,
        le32_at(control_frame(op, self_pid), NLMSG_LEN_OFFSET as int) == CONTROL_FRAME_SIZE,
        le16_at(control_frame(op, self_pid), NLMSG_TYPE_OFFSET as int) == NLMSG_DONE,
        le32_at(control_frame(op, self_pid), NLMSG_PID_OFFSET as int) == self_pid,
        le32_at(control_frame(op, self_pid), CN_IDX_OFFSET as int) == CN_IDX_PROC,
        le32_at(control_frame(op, self_pid), CN_VAL_OFFSET as int) == CN_VAL_PROC,
        le16_at(control_frame(op, self_pid), CN_LEN_OFFSET as int) == 4,
        le32_at(control_frame(op, self_pid), CN_DATA_OFFSET as int) == op.spec_code(),
{
    let f = control_frame(op, self_pid);
    lemma_le32_round_trip(CONTROL_FRAME_SIZE as u32);
    lemma_le16_round_trip(NLMSG_DONE);
    lemma_le32_round_trip(self_pid);
    lemma_le32_round_trip(CN_IDX_PROC);
    lemma_le32_round_trip(CN_VAL_PROC);
    lemma_le16_round_trip(4);
    lemma_le32_round_trip(op.spec_code());
}

/// The thread group whose exit `frame` reports: none unless the frame is a
/// done message whose payload has the size of a process event and is an
/// exit event, for a thread group that a `Pid` can name.
pub open spec fn parsed_event(frame: Seq<u8>) -> Option<int> {
    if frame.len() >= EVENT_FRAME_SIZE && le16_at(frame, NLMSG_TYPE_OFFSET as int) == NLMSG_DONE
        && le16_at(frame, CN_LEN_OFFSET as int) == PROC_EVENT_SIZE && le32_at(
        frame,
        EVENT_WHAT_OFFSET as int,
    ) == PROC_EVENT_EXIT && 0 < le32_at(frame, EVENT_TGID_OFFSET as int) <= i32::MAX {
        Some(le32_at(frame, EVENT_TGID_OFFSET as int) as int)
    } else {
        None
    }
}

fn read_le16(b: &[u8], k: usize) -> (r: u16)
    requires
        k + 2 <= b@.len(),
    ensures
        r == le16_at(b@, k as int),
{
    (b[k] as u16) | ((b[k + 1] as u16) << 8)
}

fn read_le32(b: &[u8], k: usize) -> (r: u32)
    requires
        k + 4 <= b@.len(),
    ensures
        r == le32_at(b@, k as int),
{
    (b[k] as u32) | ((b[k + 1] as u32) << 8) | ((b[k + 2] as u32) << 16) | ((b[k + 3] as u32) << 24)
}

/// The thread group whose exit the received `frame` reports, if it is an
/// exit event; any other frame gives none and the next one must be read.
pub fn parse_netlink_event_message(frame: &[u8]) -> (r: Option<Pid>)
    ensures
        r is Some <==> parsed_event(frame@) is Some,
        r matches Some(p) ==> parsed_event(frame@) == Some(p.value()),
{
    if frame.len() < EVENT_FRAME_SIZE {
        return None;
    }
    if read_le16(frame, NLMSG_TYPE_OFFSET) != NLMSG_DONE {
        return None;
    }
    if read_le16(frame, CN_LEN_OFFSET) as usize != PROC_EVENT_SIZE {
        return None;
    }
    let data = IncompleteArray::new(CN_DATA_OFFSET);
    let event = data.as_slice(frame, PROC_EVENT_SIZE);
    if read_le32(event.as_slice(), 0) != PROC_EVENT_EXIT {
        return None;
    }
    let tgid = read_le32(event.as_slice(), EVENT_TGID_OFFSET - CN_DATA_OFFSET);
    if tgid > i32::MAX as u32 {
        return None;
    }
    Pid::from_raw(tgid as i32)
}

/// Every frame that the filter built for `pids` lets through, and whose
/// payload has the size of a process event, parses to one of `pids`.
pub proof fn lemma_accepted_frame_parses(pids: Seq<Pid>, frame: Seq<u8>)
    requires
        reports_exit_of(frame, pids),
        frame.len() >= EVENT_FRAME_SIZE,
        le16_at(frame, CN_LEN_OFFSET as int) == PROC_EVENT_SIZE,
    ensures
        parsed_event(frame) matches Some(v) && exists|i: int|
            0 <= i < pids.len() && #[trigger] pids[i].value() == v,
{
    let tgid = le32_at(frame, EVENT_TGID_OFFSET as int);
    let i = choose|i: int| 0 <= i < pids.len() && pids[i].value() == tgid as int;
    assert(0 < pids[i].value() <= i32::MAX) by {
        broadcast use Pid::lemma_value_range;
    }
}

/// `AF_NETLINK`.
pub const AF_NETLINK: u16 = 16;

/// The fields of the `sockaddr_nl` that the connector socket is bound to.
#[derive(Clone, Copy, Debug, PartialEq, Eq, Structural)]
pub struct SockAddrNl {
    pub nl_family: u16,
    pub nl_pid: u32,
    pub nl_groups: u32,
}

/// The address for the socket of process `self_pid`: netlink, that
/// process, and the process connector's multicast group.
pub fn bind_address(self_pid: u32) -> (r: SockAddrNl)
    ensures
        r == (SockAddrNl { nl_family: AF_NETLINK, nl_pid: self_pid, nl_groups: CN_IDX_PROC }),
{
    SockAddrNl { nl_family: AF_NETLINK, nl_pid: self_pid, nl_groups: CN_IDX_PROC }
}

} // verus!

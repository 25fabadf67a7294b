use waitpidx::connector::{
    bind_address, make_netlink_control_message, parse_netlink_event_message, McastOp, SockAddrNl,
};
use waitpidx::incomplete_array::IncompleteArray;

fn le16(b: &mut Vec<u8>, x: u16) {
    b.extend_from_slice(&x.to_le_bytes());
}

fn le32(b: &mut Vec<u8>, x: u32) {
    b.extend_from_slice(&x.to_le_bytes());
}

fn frame(nl_type: u16, cn_len: u16, what: u32, tgid: u32) -> Vec<u8> {
    let mut b = Vec::new();
    le32(&mut b, 76);
    le16(&mut b, nl_type);
    le16(&mut b, 0);
    le32(&mut b, 0);
    le32(&mut b, 0);
    le32(&mut b, 1);
    le32(&mut b, 1);
    le32(&mut b, 0);
    le32(&mut b, 0);
    le16(&mut b, cn_len);
    le16(&mut b, 0);
    le32(&mut b, what);
    le32(&mut b, 3);
    b.extend_from_slice(&123u64.to_le_bytes());
    le32(&mut b, tgid + 5);
    le32(&mut b, tgid);
    le32(&mut b, 0);
    le32(&mut b, 17);
    le32(&mut b, 1);
    le32(&mut b, 1);
    b
}

#[test]
fn listen_control_message_bytes() {
    let m = make_netlink_control_message(McastOp::Listen, 0x0102_0304);
    let expected: Vec<u8> = vec![
        40, 0, 0, 0, 3, 0, 0, 0, 0, 0, 0, 0, 4, 3, 2, 1, // nlmsghdr
        1, 0, 0, 0, 1, 0, 0, 0, 0, 0, 0, 0, 0, 0, 0, 0, 4, 0, 0, 0, // cn_msg
        1, 0, 0, 0, // operation
    ];
    assert_eq!(m, expected);
}

#[test]
fn ignore_control_message_carries_ignore() {
    let m = make_netlink_control_message(McastOp::Ignore, 77);
    assert_eq!(m.len(), 40);
    assert_eq!(&m[36..40], &[2, 0, 0, 0]);
    assert_eq!(&m[12..16], &[77, 0, 0, 0]);
    assert_eq!(McastOp::Ignore.code(), 2);
    assert_eq!(McastOp::Listen.code(), 1);
}

#[test]
fn parse_exit_event() {
    let p = parse_netlink_event_message(&frame(3, 40, 0x8000_0000, 4321)).unwrap();
    assert_eq!(p.as_raw(), 4321);
}

#[test]
fn parse_ignores_trailing_bytes() {
    let mut f = frame(3, 40, 0x8000_0000, 10);
    f.extend_from_slice(&[0xff; 100]);
    assert_eq!(parse_netlink_event_message(&f).unwrap().as_raw(), 10);
}

#[test]
fn parse_rejects_other_frames() {
    assert!(parse_netlink_event_message(&frame(2, 40, 0x8000_0000, 4321)).is_none());
    assert!(parse_netlink_event_message(&frame(3, 24, 0x8000_0000, 4321)).is_none());
    assert!(parse_netlink_event_message(&frame(3, 40, 0x0000_0001, 4321)).is_none());
    assert!(parse_netlink_event_message(&frame(3, 40, 0x8000_0000, 0)).is_none());
    assert!(parse_netlink_event_message(&frame(3, 40, 0x8000_0000, 0x8000_0000)).is_none());
    let f = frame(3, 40, 0x8000_0000, 4321);
    assert!(parse_netlink_event_message(&f[..75]).is_none());
    assert!(parse_netlink_event_message(&[]).is_none());
}

#[test]
fn bind_address_fields() {
    assert_eq!(
        bind_address(555),
        SockAddrNl { nl_family: 16, nl_pid: 555, nl_groups: 1 }
    );
}

#[test]
fn incomplete_array_reads_and_writes_trailing_elements() {
    let mut a = IncompleteArray::new(3);
    assert_eq!(a.as_ptr(), 3);
    assert_eq!(a.as_mut_ptr(), 3);
    let buf = [9u8, 8, 7, 6, 5, 4];
    assert_eq!(a.as_slice(&buf, 2), vec![6, 5]);
    assert_eq!(a.as_slice(&buf, 0), Vec::<u8>::new());
    let mut frame = vec![1u8, 2, 3, 4, 5];
    a.as_mut_slice(&mut frame, &[10, 11, 12]);
    assert_eq!(frame, vec![1, 2, 3, 10, 11, 12]);
}

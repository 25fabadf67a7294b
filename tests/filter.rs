use waitpidx::bpf::{assembly_filter, filter_change, FilterChange, SockFilter, ACCEPT, DROP};
use waitpidx::Pid;

fn pid(v: i32) -> Pid {
    Pid::from_raw(v).unwrap()
}

fn le16(b: &mut Vec<u8>, x: u16) {
    b.extend_from_slice(&x.to_le_bytes());
}

fn le32(b: &mut Vec<u8>, x: u32) {
    b.extend_from_slice(&x.to_le_bytes());
}

/// A frame as the kernel sends it: nlmsghdr, cn_msg, proc_event.
fn event_frame(nl_type: u16, nl_pid: u32, idx: u32, val: u32, what: u32, tgid: u32) -> Vec<u8> {
    let mut b = Vec::new();
    le32(&mut b, 76);
    le16(&mut b, nl_type);
    le16(&mut b, 0);
    le32(&mut b, 0);
    le32(&mut b, nl_pid);
    le32(&mut b, idx);
    le32(&mut b, val);
    le32(&mut b, 0);
    le32(&mut b, 0);
    le16(&mut b, 40);
    le16(&mut b, 0);
    le32(&mut b, what);
    le32(&mut b, 0);
    b.extend_from_slice(&0u64.to_le_bytes());
    le32(&mut b, tgid + 1);
    le32(&mut b, tgid);
    le32(&mut b, 0);
    le32(&mut b, 9);
    le32(&mut b, 1);
    le32(&mut b, 1);
    b
}

fn exit_frame(tgid: u32) -> Vec<u8> {
    event_frame(3, 0, 1, 1, 0x8000_0000, tgid)
}

/// Runs the subset of classic BPF that the filter uses.
fn run(prog: &[SockFilter], pkt: &[u8]) -> u32 {
    let mut pc = 0usize;
    let mut a = 0u32;
    while pc < prog.len() {
        let i = prog[pc];
        let k = i.k as usize;
        match i.code {
            0x20 => {
                if k + 4 > pkt.len() {
                    return 0;
                }
                a = u32::from_be_bytes([pkt[k], pkt[k + 1], pkt[k + 2], pkt[k + 3]]);
                pc += 1;
            }
            0x28 => {
                if k + 2 > pkt.len() {
                    return 0;
                }
                a = u16::from_be_bytes([pkt[k], pkt[k + 1]]) as u32;
                pc += 1;
            }
            0x15 => {
                pc += 1 + if a == i.k { i.jt as usize } else { i.jf as usize };
            }
            0x06 => return i.k,
            _ => return 0,
        }
    }
    0
}

fn insn(code: u16, jt: u8, jf: u8, k: u32) -> SockFilter {
    SockFilter { code, jt, jf, k }
}

#[test]
fn empty_filter_has_exact_head_and_final_drop() {
    let f = assembly_filter(&[]);
    let expected = vec![
        insn(0x28, 0, 0, 4),
        insn(0x15, 1, 0, 0x0300),
        insn(0x06, 0, 0, 0),
        insn(0x20, 0, 0, 12),
        insn(0x15, 1, 0, 0),
        insn(0x06, 0, 0, 0),
        insn(0x20, 0, 0, 16),
        insn(0x15, 1, 0, 0x0100_0000),
        insn(0x06, 0, 0, 0),
        insn(0x20, 0, 0, 20),
        insn(0x15, 1, 0, 0x0100_0000),
        insn(0x06, 0, 0, 0),
        insn(0x20, 0, 0, 36),
        insn(0x15, 1, 0, 0x0000_0080),
        insn(0x06, 0, 0, 0),
        insn(0x06, 0, 0, 0),
    ];
    assert_eq!(f, expected);
}

#[test]
fn filter_has_one_block_per_pid() {
    let f = assembly_filter(&[pid(1234), pid(7)]);
    assert_eq!(f.len(), 15 + 3 * 2 + 1);
    assert_eq!(f[15], insn(0x20, 0, 0, 56));
    assert_eq!(f[16], insn(0x15, 0, 1, 1234u32.swap_bytes()));
    assert_eq!(f[17], insn(0x06, 0, 0, 0xffff_ffff));
    assert_eq!(f[19], insn(0x15, 0, 1, 0x0700_0000));
    assert_eq!(f[21], insn(0x06, 0, 0, 0));
}

#[test]
fn empty_filter_drops_everything() {
    let f = assembly_filter(&[]);
    assert_eq!(run(&f, &exit_frame(42)), DROP);
    assert_eq!(run(&f, &[]), DROP);
}

#[test]
fn filter_accepts_exit_of_interesting_pid_only() {
    let f = assembly_filter(&[pid(42), pid(99)]);
    assert_eq!(run(&f, &exit_frame(42)), ACCEPT);
    assert_eq!(run(&f, &exit_frame(99)), ACCEPT);
    assert_eq!(run(&f, &exit_frame(43)), DROP);
}

#[test]
fn filter_drops_what_is_not_a_kernel_exit_report() {
    let f = assembly_filter(&[pid(42)]);
    assert_eq!(run(&f, &event_frame(2, 0, 1, 1, 0x8000_0000, 42)), DROP);
    assert_eq!(run(&f, &event_frame(3, 77, 1, 1, 0x8000_0000, 42)), DROP);
    assert_eq!(run(&f, &event_frame(3, 0, 2, 1, 0x8000_0000, 42)), DROP);
    assert_eq!(run(&f, &event_frame(3, 0, 1, 2, 0x8000_0000, 42)), DROP);
    assert_eq!(run(&f, &event_frame(3, 0, 1, 1, 0x0000_0001, 42)), DROP);
    let short = exit_frame(42)[..50].to_vec();
    assert_eq!(run(&f, &short), DROP);
}

#[test]
fn filter_change_attaches_or_detaches() {
    let ps = [pid(5)];
    match filter_change(Some(&ps[..])) {
        FilterChange::Attach(prog) => assert_eq!(prog, assembly_filter(&ps)),
        FilterChange::Detach => panic!("expected a program"),
    }
    assert!(matches!(filter_change(None), FilterChange::Detach));
}

#[test]
fn sock_filter_constructors() {
    assert_eq!(SockFilter::stmt(0x06, 5), insn(0x06, 0, 0, 5));
    assert_eq!(SockFilter::jump(0x15, 9, 2, 3), insn(0x15, 2, 3, 9));
}

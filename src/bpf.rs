//! The classic BPF program that lets through exit events of given processes.
use vstd::prelude::*;
use crate::connector::{
    CN_IDX_OFFSET, CN_IDX_PROC, CN_VAL_OFFSET, CN_VAL_PROC, EVENT_TGID_OFFSET, EVENT_WHAT_OFFSET,
    NLMSG_DONE, NLMSG_PID_OFFSET, NLMSG_TYPE_OFFSET, PROC_EVENT_EXIT,
};
use crate::pid::Pid;
use crate::wire::{
    be16_at, be32_at, be_imm16, be_imm32, le16_at, le32_at, lemma_be16_matches,
    lemma_be32_matches, swap16, swap32,
};

verus! {

/// The opcodes the filter is made of: `BPF_LD | BPF_W | BPF_ABS`,
/// `BPF_LD | BPF_H | BPF_ABS`, `BPF_JMP | BPF_JEQ | BPF_K` and
/// `BPF_RET | BPF_K`.
pub const LD_W_ABS: u16 = 0x20;
pub const LD_H_ABS: u16 = 0x28;
pub const JEQ_K: u16 = 0x15;
pub const RET_K: u16 = 0x06;

/// Return values: keep the whole packet, or drop it.
pub const ACCEPT: u32 = 0xffff_ffff;
pub const DROP: u32 = 0;

/// One classic BPF instruction, laid out as the kernel's `sock_filter`.
#[derive(Clone, Copy, Debug, PartialEq, Eq, Structural)]
pub struct SockFilter {
    pub code: u16,
    pub jt: u8,
    pub jf: u8,
    pub k: u32,
}

pub open spec fn stmt_of(code: u16, k: u32) -> SockFilter {
    SockFilter { code, jt: 0, jf: 0, k }
}

pub open spec fn jump_of(code: u16, k: u32, jt: u8, jf: u8) -> SockFilter {
    SockFilter { code, jt, jf, k }
}

impl SockFilter {
    /// An instruction that does not branch.
    pub fn stmt(code: u16, k: u32) -> (r: SockFilter)
        ensures
            r == stmt_of(code, k),
    {
        SockFilter { code, jt: 0, jf: 0, k }
    }

    /// A conditional jump: `jt` instructions forward when the test holds,
    /// `jf` when it does not.
    pub fn jump(code: u16, k: u32, jt: u8, jf: u8) -> (r: SockFilter)
        ensures
            r == jump_of(code, k, jt, jf),
    {
        SockFilter { code, jt, jf, k }
    }
}

/// Load a field, then skip the following drop when it equals `imm`.
pub open spec fn check_of(load: u16, offset: usize, imm: u32) -> Seq<SockFilter> {
    seq![stmt_of(load, offset as u32), jump_of(JEQ_K, imm, 1, 0), stmt_of(RET_K, DROP)]
}

/// The checks that every accepted packet passes: a done message from the
/// kernel, on the process connector, that reports an exit.
pub open spec fn filter_head() -> Seq<SockFilter> {
    check_of(LD_H_ABS, NLMSG_TYPE_OFFSET, swap16(NLMSG_DONE) as u32)
        + check_of(LD_W_ABS, NLMSG_PID_OFFSET, 0)
        + check_of(LD_W_ABS, CN_IDX_OFFSET, swap32(CN_IDX_PROC))
        + check_of(LD_W_ABS, CN_VAL_OFFSET, swap32(CN_VAL_PROC))
        + check_of(LD_W_ABS, EVENT_WHAT_OFFSET, swap32(PROC_EVENT_EXIT))
}

/// Accept the packet when the exiting thread group is `p`.
pub open spec fn pid_block(p: Pid) -> Seq<SockFilter> {
    seq![
        stmt_of(LD_W_ABS, EVENT_TGID_OFFSET as u32),
        jump_of(JEQ_K, swap32(p.value() as u32), 0, 1),
        stmt_of(RET_K, ACCEPT),
    ]
}

pub open spec fn pid_blocks(pids: Seq<Pid>) -> Seq<SockFilter>
    decreases pids.len(),
{
    if pids.len() == 0 {
        seq![]
    } else {
        pid_blocks(pids.drop_last()) + pid_block(pids.last())
    }
}

/// The whole program for the interest set `pids`.
pub open spec fn filter_program(pids: Seq<Pid>) -> Seq<SockFilter> {
    filter_head() + pid_blocks(pids) + seq![stmt_of(RET_K, DROP)]
}

/// Builds the filter that lets through the exit events of the processes in
/// `pids` and drops every other packet.
pub fn assembly_filter(pids: &[Pid]) -> (r: Vec<SockFilter>)
    ensures
        r@ == filter_program(pids@),
{
    let mut filter: Vec<SockFilter> = Vec::new();
    push_check(&mut filter, LD_H_ABS, NLMSG_TYPE_OFFSET, be_imm16(NLMSG_DONE) as u32);
    push_check(&mut filter, LD_W_ABS, NLMSG_PID_OFFSET, 0);
    push_check(&mut filter, LD_W_ABS, CN_IDX_OFFSET, be_imm32(CN_IDX_PROC));
    push_check(&mut filter, LD_W_ABS, CN_VAL_OFFSET, be_imm32(CN_VAL_PROC));
    push_check(&mut filter, LD_W_ABS, EVENT_WHAT_OFFSET, be_imm32(PROC_EVENT_EXIT));
    assert(filter@ =~= filter_head());

    let mut i: usize = 0;
    while i < pids.len()
        invariant
            i <= pids@.len(),
            filter@ == filter_head() + pid_blocks(pids@.subrange(0, i as int)),
        decreases pids@.len() - i,
    {
        let p = pids[i];
        filter.push(SockFilter::stmt(LD_W_ABS, EVENT_TGID_OFFSET as u32));
        filter.push(SockFilter::jump(JEQ_K, be_imm32(p.as_raw() as u32), 0, 1));
        filter.push(SockFilter::stmt(RET_K, ACCEPT));
        proof {
            let done = pids@.subrange(0, i + 1);
            assert(done.drop_last() =~= pids@.subrange(0, i as int));
            assert(done.last() == p);
            assert(filter@ =~= filter_head() + pid_blocks(done));
        }
        i += 1;
    }
    assert(pids@.subrange(0, i as int) =~= pids@);
    filter.push(SockFilter::stmt(RET_K, DROP));
    assert(filter@ =~= filter_program(pids@));
    filter
}

fn push_check(filter: &mut Vec<SockFilter>, load: u16, offset: usize, imm: u32)
    requires
        offset <= u32::MAX,
    ensures
        final(filter)@ == old(filter)@ + check_of(load, offset, imm),
{
    filter.push(SockFilter::stmt(load, offset as u32));
    filter.push(SockFilter::jump(JEQ_K, imm, 1, 0));
    filter.push(SockFilter::stmt(RET_K, DROP));
    assert(filter@ =~= old(filter)@ + check_of(load, offset, imm));
}

/// The value that a load instruction puts in the accumulator; none when it
/// reads past the end of the packet.
pub open spec fn load_value(code: u16, k: u32, pkt: Seq<u8>) -> Option<u32> {
    if code == LD_W_ABS && k as int + 4 <= pkt.len() {
        Some(be32_at(pkt, k as int))
    } else if code == LD_H_ABS && k as int + 2 <= pkt.len() {
        Some(be16_at(pkt, k as int) as u32)
    } else {
        None
    }
}

/// What `prog` returns for `pkt` when run from instruction `pc` with
/// accumulator `a`, for the instructions the filter uses. As in the kernel,
/// a load past the end of the packet, an unknown opcode and running off the
/// end all drop the packet.
pub open spec fn run_at(prog: Seq<SockFilter>, pc: int, a: u32, pkt: Seq<u8>) -> u32
    decreases prog.len() - pc,
{
    if pc < 0 || pc >= prog.len() {
        DROP
    } else {
        let i = prog[pc];
        if i.code == LD_W_ABS || i.code == LD_H_ABS {
            match load_value(i.code, i.k, pkt) {
                Some(v) => run_at(prog, pc + 1, v, pkt),
                None => DROP,
            }
        } else if i.code == JEQ_K {
            let next = if a == i.k {
                pc + 1 + i.jt
            } else {
                pc + 1 + i.jf
            };
            if next < prog.len() {
                run_at(prog, next, a, pkt)
            } else {
                DROP
            }
        } else if i.code == RET_K {
            i.k
        } else {
            DROP
        }
    }
}

/// What the socket does with `pkt` under `prog`: zero drops it.
pub open spec fn run_filter(prog: Seq<SockFilter>, pkt: Seq<u8>) -> u32 {
    run_at(prog, 0, 0, pkt)
}

/// `pkt` is a done message from the kernel on the process connector that
/// reports an exit.
pub open spec fn is_exit_report(pkt: Seq<u8>) -> bool {
    &&& pkt.len() >= EVENT_WHAT_OFFSET + 4
    &&& le16_at(pkt, NLMSG_TYPE_OFFSET as int) == NLMSG_DONE
    &&& le32_at(pkt, NLMSG_PID_OFFSET as int) == 0
    &&& le32_at(pkt, CN_IDX_OFFSET as int) == CN_IDX_PROC
    &&& le32_at(pkt, CN_VAL_OFFSET as int) == CN_VAL_PROC
    &&& le32_at(pkt, EVENT_WHAT_OFFSET as int) == PROC_EVENT_EXIT
}

/// `pkt` reports the exit of one of `pids`.
pub open spec fn reports_exit_of(pkt: Seq<u8>, pids: Seq<Pid>) -> bool {
    &&& is_exit_report(pkt)
    &&& pkt.len() >= EVENT_TGID_OFFSET + 4
    &&& exists|i: int|
        0 <= i < pids.len() && pids[i].value() == le32_at(pkt, EVENT_TGID_OFFSET as int) as int
}

proof fn lemma_pid_blocks_shape(pids: Seq<Pid>)
    ensures
        pid_blocks(pids).len() == 3 * pids.len(),
        forall|j: int, t: int|
            0 <= j < pids.len() && 0 <= t < 3 ==> #[trigger] pid_blocks(pids)[3 * j + t]
                == pid_block(pids[j])[t],
    decreases pids.len(),
{
    if pids.len() > 0 {
        let init = pids.drop_last();
        lemma_pid_blocks_shape(init);
        assert forall|j: int, t: int| 0 <= j < pids.len() && 0 <= t < 3 implies #[trigger] pid_blocks(
            pids,
        )[3 * j + t] == pid_block(pids[j])[t] by {
            if j < init.len() {
                assert(pid_blocks(init)[3 * j + t] == pid_block(init[j])[t]);
            }
        }
    }
}

/// A load, a test and a drop: the packet goes on to `pc + 3` exactly when
/// the loaded field equals `imm`.
proof fn lemma_check(prog: Seq<SockFilter>, pc: int, a: u32, pkt: Seq<u8>, load: u16, offset: usize, imm: u32)
    requires
        0 <= pc,
        pc + 3 <= prog.len(),
        load == LD_W_ABS || load == LD_H_ABS,
        offset <= u32::MAX,
        prog.subrange(pc, pc + 3) == check_of(load, offset, imm),
    ensures
        run_at(prog, pc, a, pkt) == match load_value(load, offset as u32, pkt) {
            Some(v) => if v == imm {
                run_at(prog, pc + 3, v, pkt)
            } else {
                DROP
            },
            None => DROP,
        },
{
    assert(prog[pc] == prog.subrange(pc, pc + 3)[0]);
    assert(prog[pc + 1] == prog.subrange(pc, pc + 3)[1]);
    assert(prog[pc + 2] == prog.subrange(pc, pc + 3)[2]);
    if let Some(v) = load_value(load, offset as u32, pkt) {
        assert(run_at(prog, pc, a, pkt) == run_at(prog, pc + 1, v, pkt));
        if v != imm {
            assert(run_at(prog, pc + 1, v, pkt) == run_at(prog, pc + 2, v, pkt));
        }
    }
}

proof fn lemma_pid_tail(pids: Seq<Pid>, j: int, a: u32, pkt: Seq<u8>)
    requires
        0 <= j <= pids.len(),
    ensures
        run_at(filter_program(pids), filter_head().len() + 3 * j, a, pkt) == if pkt.len()
            >= EVENT_TGID_OFFSET + 4 && exists|i: int|
            j <= i < pids.len() && pids[i].value() == le32_at(pkt, EVENT_TGID_OFFSET as int) as int {
            ACCEPT
        } else {
            DROP
        },
    decreases pids.len() - j,
{
    let prog = filter_program(pids);
    let h = filter_head().len();
    lemma_pid_blocks_shape(pids);
    assert(h == 15);
    let pc = h + 3 * j;
    if j == pids.len() {
        assert(prog[pc] == stmt_of(RET_K, DROP));
    } else {
        let p = pids[j];
        assert(prog[pc] == pid_blocks(pids)[3 * j + 0]);
        assert(prog[pc + 1] == pid_blocks(pids)[3 * j + 1]);
        assert(prog[pc + 2] == pid_blocks(pids)[3 * j + 2]);
        assert(prog[pc] == stmt_of(LD_W_ABS, EVENT_TGID_OFFSET as u32));
        assert(prog[pc + 1] == jump_of(JEQ_K, swap32(p.value() as u32), 0, 1));
        assert(prog[pc + 2] == stmt_of(RET_K, ACCEPT));
        lemma_pid_tail(pids, j + 1, a, pkt);
        let tgid = le32_at(pkt, EVENT_TGID_OFFSET as int);
        if pkt.len() >= EVENT_TGID_OFFSET + 4 {
            let v = be32_at(pkt, EVENT_TGID_OFFSET as int);
            assert(run_at(prog, pc, a, pkt) == run_at(prog, pc + 1, v, pkt));
            assert(0 < p.value() <= i32::MAX) by {
                broadcast use Pid::lemma_value_range;
            }
            let x = p.value() as u32;
            assert(x as int == p.value());
            lemma_be32_matches(pkt, EVENT_TGID_OFFSET as int, x);
            lemma_pid_tail(pids, j + 1, v, pkt);
            if v == swap32(x) {
                assert(run_at(prog, pc + 1, v, pkt) == run_at(prog, pc + 2, v, pkt));
                assert(run_at(prog, pc + 2, v, pkt) == ACCEPT);
                assert(pids[j].value() == tgid as int);
            } else {
                assert(run_at(prog, pc + 1, v, pkt) == run_at(prog, pc + 3, v, pkt));
                assert(pc + 3 == h + 3 * (j + 1));
                assert(pids[j].value() != tgid as int);
                if exists|i: int| j <= i < pids.len() && pids[i].value() == tgid as int {
                    let i = choose|i: int| j <= i < pids.len() && pids[i].value() == tgid as int;
                    assert(j + 1 <= i);
                }
            }
        } else {
            assert(load_value(LD_W_ABS, EVENT_TGID_OFFSET as u32, pkt) is None);
            assert(run_at(prog, pc, a, pkt) == DROP);
        }
    }
}

/// The filter built for `pids` lets a packet through, whole, exactly when it
/// reports the exit of one of `pids`, and drops every other packet.
pub proof fn lemma_filter_accepts(pids: Seq<Pid>, pkt: Seq<u8>)
    ensures
        run_filter(filter_program(pids), pkt) == if reports_exit_of(pkt, pids) {
            ACCEPT
        } else {
            DROP
        },
{
    let prog = filter_program(pids);
    assert(filter_head().len() == 15);
    assert(prog.subrange(0, 3) =~= check_of(LD_H_ABS, NLMSG_TYPE_OFFSET, swap16(NLMSG_DONE) as u32));
    assert(prog.subrange(3, 6) =~= check_of(LD_W_ABS, NLMSG_PID_OFFSET, 0));
    assert(prog.subrange(6, 9) =~= check_of(LD_W_ABS, CN_IDX_OFFSET, swap32(CN_IDX_PROC)));
    assert(prog.subrange(9, 12) =~= check_of(LD_W_ABS, CN_VAL_OFFSET, swap32(CN_VAL_PROC)));
    assert(prog.subrange(12, 15) =~= check_of(LD_W_ABS, EVENT_WHAT_OFFSET, swap32(PROC_EVENT_EXIT)));
    lemma_check(prog, 0, 0, pkt, LD_H_ABS, NLMSG_TYPE_OFFSET, swap16(NLMSG_DONE) as u32);
    if pkt.len() >= NLMSG_TYPE_OFFSET + 2 {
        lemma_be16_matches(pkt, NLMSG_TYPE_OFFSET as int, NLMSG_DONE);
        let v0 = be16_at(pkt, NLMSG_TYPE_OFFSET as int) as u32;
        lemma_check(prog, 3, v0, pkt, LD_W_ABS, NLMSG_PID_OFFSET, 0);
    }
    if pkt.len() >= NLMSG_PID_OFFSET + 4 {
        let v1 = be32_at(pkt, NLMSG_PID_OFFSET as int);
        lemma_be32_matches(pkt, NLMSG_PID_OFFSET as int, 0);
        assert(swap32(0) == 0) by (bit_vector);
        lemma_check(prog, 6, v1, pkt, LD_W_ABS, CN_IDX_OFFSET, swap32(CN_IDX_PROC));
    }
    if pkt.len() >= CN_IDX_OFFSET + 4 {
        let v2 = be32_at(pkt, CN_IDX_OFFSET as int);
        lemma_be32_matches(pkt, CN_IDX_OFFSET as int, CN_IDX_PROC);
        lemma_check(prog, 9, v2, pkt, LD_W_ABS, CN_VAL_OFFSET, swap32(CN_VAL_PROC));
    }
    if pkt.len() >= CN_VAL_OFFSET + 4 {
        let v3 = be32_at(pkt, CN_VAL_OFFSET as int);
        lemma_be32_matches(pkt, CN_VAL_OFFSET as int, CN_VAL_PROC);
        lemma_check(prog, 12, v3, pkt, LD_W_ABS, EVENT_WHAT_OFFSET, swap32(PROC_EVENT_EXIT));
    }
    if pkt.len() >= EVENT_WHAT_OFFSET + 4 {
        let v4 = be32_at(pkt, EVENT_WHAT_OFFSET as int);
        lemma_be32_matches(pkt, EVENT_WHAT_OFFSET as int, PROC_EVENT_EXIT);
        lemma_pid_tail(pids, 0, v4, pkt);
    }
}

/// With no process of interest the filter drops every packet.
pub proof fn lemma_empty_filter_drops(pkt: Seq<u8>)
    ensures
        run_filter(filter_program(Seq::<Pid>::empty()), pkt) == DROP,
{
    lemma_filter_accepts(Seq::<Pid>::empty(), pkt);
}

/// A change of the filter attached to the connector socket.
#[derive(Debug)]
pub enum FilterChange {
    /// Attach this program, replacing any attached one.
    Attach(Vec<SockFilter>),
    /// Detach the attached filter: every packet gets through.
    Detach,
}

/// The change that sets the interest to `pids`; for none the filter is
/// taken off.
pub fn filter_change(pids: Option<&[Pid]>) -> (r: FilterChange)
    ensures
        pids is None <==> r is Detach,
        pids matches Some(ps) ==> (r matches FilterChange::Attach(prog) && prog@ == filter_program(ps@)),
{
    match pids {
        Some(ps) => FilterChange::Attach(assembly_filter(ps)),
        None => FilterChange::Detach,
    }
}

} // verus!

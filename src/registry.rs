//! The interest registry of a netlink backend: for each process, the
//! notifiers of the waiters that wait for its exit, kept in step with the
//! filter attached to the socket.
use vstd::prelude::*;
use crate::bpf::{
    assembly_filter, filter_program, is_exit_report, lemma_filter_accepts, run_filter, SockFilter,
    ACCEPT, DROP,
};
use crate::connector::EVENT_TGID_OFFSET;
use crate::wire::le32_at;
use crate::error::Error;
use crate::pid::Pid;

verus! {

/// The values of the pids in `s`.
pub open spec fn pid_values(s: Seq<Pid>) -> Set<int> {
    Set::new(|k: int| exists|i: int| 0 <= i < s.len() && s[i].value() == k)
}

/// The values in `s` are distinct.
pub open spec fn distinct_pids(s: Seq<Pid>) -> bool {
    forall|i: int, j: int|
        0 <= i < s.len() && 0 <= j < s.len() && i != j ==> s[i].value() != s[j].value()
}

proof fn lemma_pid_values_push(s: Seq<Pid>, p: Pid)
    ensures
        pid_values(s.push(p)) =~= pid_values(s).insert(p.value()),
{
    let t = s.push(p);
    assert forall|k: int| pid_values(t).contains(k) implies pid_values(s).insert(p.value()).contains(
        k,
    ) by {
        let j = choose|j: int| 0 <= j < t.len() && t[j].value() == k;
        if j < s.len() {
            assert(t[j] == s[j]);
        }
    }
    assert forall|k: int| pid_values(s).insert(p.value()).contains(k) implies pid_values(t).contains(
        k,
    ) by {
        if k == p.value() {
            assert(t[s.len() as int] == p);
        } else {
            let j = choose|j: int| 0 <= j < s.len() && s[j].value() == k;
            assert(t[j] == s[j]);
        }
    }
}

/// Every process in `m` has at least one waiter.
pub open spec fn no_empty_lists<N>(m: Map<int, Seq<N>>) -> bool {
    forall|k: int| #[trigger] m.contains_key(k) ==> m[k].len() > 0
}

/// The waiters for `k` in `m`, none when `k` is absent.
pub open spec fn waiters_of<N>(m: Map<int, Seq<N>>, k: int) -> Seq<N> {
    if m.contains_key(k) {
        m[k]
    } else {
        Seq::empty()
    }
}

struct Entry<N> {
    pid: Pid,
    notifiers: Vec<N>,
}

/// Pending waiters by process, and the processes compiled into the filter
/// that was last attached.
pub struct InterestRegistry<N> {
    entries: Vec<Entry<N>>,
    installed: Vec<Pid>,
    pending: Ghost<Map<int, Seq<N>>>,
}

impl<N> InterestRegistry<N> {
    /// The notifiers of the pending waiters, by process, in the order in
    /// which they registered.
    pub closed spec fn pending(self) -> Map<int, Seq<N>> {
        self.pending@
    }

    /// The pids compiled, in this order, into the filter last attached.
    pub closed spec fn installed_pids_seq(self) -> Seq<Pid> {
        self.installed@
    }

    /// The processes that the attached filter lets exit events through for.
    pub open spec fn installed(self) -> Set<int> {
        pid_values(self.installed_pids_seq())
    }

    /// The filter lets through exactly the exits that waiters wait for.
    pub open spec fn synced(self) -> bool {
        self.pending().dom() == self.installed()
    }

    pub closed spec fn wf(self) -> bool {
        &&& forall|i: int|
            0 <= i < self.entries@.len() ==> {
                &&& self.pending@.contains_key(#[trigger] self.entries@[i].pid.value())
                &&& self.pending@[self.entries@[i].pid.value()] == self.entries@[i].notifiers@
            }
        &&& forall|k: int| #[trigger]
            self.pending@.contains_key(k) ==> exists|i: int|
                0 <= i < self.entries@.len() && self.entries@[i].pid.value() == k
        &&& forall|i: int, j: int|
            0 <= i < self.entries@.len() && 0 <= j < self.entries@.len() && i != j
                ==> self.entries@[i].pid.value() != self.entries@[j].pid.value()
        &&& no_empty_lists(self.pending@)
        &&& self.pending@.dom().subset_of(self.installed())
    }

    /// Attaches the filter for no process with `attach`, and makes an empty
    /// registry if that succeeded; otherwise returns the error of `attach`.
    pub fn new<F: FnOnce(Vec<SockFilter>) -> Result<(), Error>>(attach: F) -> (r: Result<
        Self,
        Error,
    >)
        requires
            forall|p: Vec<SockFilter>| attach.requires((p,)),
        ensures
            (exists|prog: Vec<SockFilter>, res: Result<(), Error>|
                #![trigger attach.ensures((prog,), res)]
                {
                    &&& prog@ == filter_program(Seq::<Pid>::empty())
                    &&& attach.ensures((prog,), res)
                    &&& (res is Ok <==> r is Ok)
                    &&& (res matches Err(e) ==> (r matches Err(x) && x == e))
                }),
            (r matches Ok(reg) ==> reg.wf() && reg.pending() == Map::<int, Seq<N>>::empty()
                && reg.synced() && reg.installed_pids_seq() == Seq::<Pid>::empty()),
    {
        let none: Vec<Pid> = Vec::new();
        let prog = assembly_filter(none.as_slice());
        let ghost sent = prog;
        assert(none@ =~= Seq::<Pid>::empty());
        let res = attach(prog);
        assert(attach.ensures((sent,), res));
        match res {
            Ok(()) => {
                let reg = InterestRegistry {
                    entries: Vec::new(),
                    installed: none,
                    pending: Ghost(Map::empty()),
                };
                assert(reg.installed() =~= Set::empty());
                assert(reg.pending().dom() =~= Set::empty());
                Ok(reg)
            },
            Err(e) => Err(e),
        }
    }

    fn find(&self, pid: Pid) -> (r: Option<usize>)
        requires
            self.wf(),
        ensures
            r matches Some(i) ==> i < self.entries@.len() && self.entries@[i as int].pid.value()
                == pid.value(),
            r is None ==> !self.pending().contains_key(pid.value()),
    {
        let mut i: usize = 0;
        while i < self.entries.len()
            invariant
                self.wf(),
                i <= self.entries@.len(),
                forall|j: int| 0 <= j < i ==> self.entries@[j].pid.value() != pid.value(),
            decreases self.entries@.len() - i,
        {
            if self.entries[i].pid.as_raw() == pid.as_raw() {
                return Some(i);
            }
            i += 1;
        }
        None
    }

    /// The processes that have pending waiters, each once.
    pub fn keys(&self) -> (r: Vec<Pid>)
        requires
            self.wf(),
        ensures
            pid_values(r@) == self.pending().dom(),
            distinct_pids(r@),
    {
        let mut out: Vec<Pid> = Vec::new();
        let mut i: usize = 0;
        while i < self.entries.len()
            invariant
                self.wf(),
                i <= self.entries@.len(),
                out@.len() == i,
                forall|j: int| 0 <= j < i ==> out@[j] == #[trigger] self.entries@[j].pid,
            decreases self.entries@.len() - i,
        {
            out.push(self.entries[i].pid);
            i += 1;
        }
        assert(pid_values(out@) =~= self.pending().dom()) by {
            assert forall|k: int| pid_values(out@).contains(k) implies self.pending().contains_key(
                k,
            ) by {
                let j = choose|j: int| 0 <= j < out@.len() && out@[j].value() == k;
                assert(out@[j] == self.entries@[j].pid);
            }
            assert forall|k: int| self.pending().contains_key(k) implies pid_values(
                out@,
            ).contains(k) by {
                let j = choose|j: int|
                    0 <= j < self.entries@.len() && self.entries@[j].pid.value() == k;
                assert(out@[j] == self.entries@[j].pid);
            }
        }
        assert forall|a: int, b: int|
            0 <= a < out@.len() && 0 <= b < out@.len() && a != b implies out@[a].value()
            != out@[b].value() by {
            assert(out@[a] == self.entries@[a].pid);
            assert(out@[b] == self.entries@[b].pid);
        }
        out
    }

    /// Registers `notifier` as a waiter for the exit of `pid`. The filter
    /// for the pending processes and `pid` is attached first, with `attach`;
    /// only when that succeeds is the waiter added, so that no exit of `pid`
    /// can be dropped by the kernel while the waiter is registered. When it
    /// fails the registry is unchanged and the error is returned.
    pub fn interest<F: FnOnce(Vec<SockFilter>) -> Result<(), Error>>(
        &mut self,
        pid: Pid,
        notifier: N,
        attach: F,
    ) -> (r: Result<(), Error>)
        requires
            old(self).wf(),
            forall|p: Vec<SockFilter>| attach.requires((p,)),
        ensures
            final(self).wf(),
            no_empty_lists(final(self).pending()),
            r is Ok ==> final(self).pending() == old(self).pending().insert(
                pid.value(),
                waiters_of(old(self).pending(), pid.value()).push(notifier),
            ),
            r is Ok ==> final(self).synced(),
            r is Err ==> final(self).pending() == old(self).pending() && final(self).installed()
                == old(self).installed(),
            (exists|prog: Vec<SockFilter>, keys: Seq<Pid>|
                #![trigger attach.ensures((prog,), r), filter_program(keys)]
                {
                    &&& attach.ensures((prog,), r)
                    &&& prog@ == filter_program(keys)
                    &&& pid_values(keys) == old(self).pending().dom().insert(pid.value())
                    &&& (r is Ok ==> final(self).installed_pids_seq() == keys)
                }),
    {
        let mut keys = self.keys();
        let found = self.find(pid);
        let ghost before = keys@;
        if found.is_none() {
            keys.push(pid);
            proof {
                lemma_pid_values_push(before, pid);
            }
        } else {
            assert(self.pending().contains_key(pid.value()));
        }
        assert(pid_values(keys@) =~= self.pending().dom().insert(pid.value()));
        let prog = assembly_filter(keys.as_slice());
        let ghost sent = prog;
        let ghost sent_keys = keys@;
        assert(sent@ == filter_program(sent_keys));
        assert(pid_values(sent_keys) == old(self).pending().dom().insert(pid.value()));
        let res = attach(prog);
        assert(attach.ensures((sent,), res));
        if res.is_err() {
            return res;
        }
        self.installed = keys;
        let ghost old_pending = self.pending@;
        match found {
            Some(i) => {
                let mut entry = self.entries.remove(i);
                entry.notifiers.push(notifier);
                let ghost ns = entry.notifiers@;
                self.entries.insert(i, entry);
                self.pending = Ghost(old_pending.insert(pid.value(), ns));
                assert(self.entries@ =~= old(self).entries@.update(i as int, entry));
                assert forall|j: int| 0 <= j < self.entries@.len() && j != i implies #[trigger] self.entries@[j].pid.value() != pid.value() by {
                    assert(self.entries@[j] == old(self).entries@[j]);
                }
                assert forall|k: int| #[trigger] self.pending@.contains_key(k) implies exists|j: int|
                    0 <= j < self.entries@.len() && self.entries@[j].pid.value() == k by {
                    if k != pid.value() {
                        assert(old_pending.contains_key(k));
                        let j = choose|j: int|
                            0 <= j < old(self).entries@.len() && old(self).entries@[j].pid.value() == k;
                        assert(self.entries@[j].pid == old(self).entries@[j].pid);
                    } else {
                        assert(self.entries@[i as int].pid.value() == k);
                    }
                }
            },
            None => {
                let mut notifiers: Vec<N> = Vec::new();
                notifiers.push(notifier);
                let ghost ns = notifiers@;
                self.entries.push(Entry { pid, notifiers });
                self.pending = Ghost(old_pending.insert(pid.value(), ns));
                let ghost n: int = old(self).entries@.len() as int;
                assert forall|j: int| 0 <= j < n implies #[trigger] self.entries@[j].pid.value() != pid.value() by {
                    assert(old_pending.contains_key(old(self).entries@[j].pid.value()));
                }
                assert forall|k: int| #[trigger] self.pending@.contains_key(k) implies exists|j: int|
                    0 <= j < self.entries@.len() && self.entries@[j].pid.value() == k by {
                    if k != pid.value() {
                        assert(old_pending.contains_key(k));
                        let j = choose|j: int|
                            0 <= j < old(self).entries@.len() && old(self).entries@[j].pid.value() == k;
                        assert(self.entries@[j] == old(self).entries@[j]);
                    } else {
                        assert(self.entries@[n].pid.value() == k);
                    }
                }
            },
        }
        assert(self.installed_pids_seq() == sent_keys);
        res
    }

    /// Handles the exit of `pid`: removes its waiters and hands back their
    /// notifiers, in the order in which they registered, then attaches the
    /// filter for the processes still pending with `attach`. The second
    /// result is what `attach` returned; when it is an error the filter may
    /// still let through exits that nobody waits for, never fewer.
    pub fn take_exited<F: FnOnce(Vec<SockFilter>) -> Result<(), Error>>(
        &mut self,
        pid: Pid,
        attach: F,
    ) -> (r: (Vec<N>, Result<(), Error>))
        requires
            old(self).wf(),
            forall|p: Vec<SockFilter>| attach.requires((p,)),
        ensures
            final(self).wf(),
            no_empty_lists(final(self).pending()),
            r.0@ == waiters_of(old(self).pending(), pid.value()),
            final(self).pending() == old(self).pending().remove(pid.value()),
            r.1 is Ok ==> final(self).synced(),
            (exists|prog: Vec<SockFilter>, keys: Seq<Pid>|
                #![trigger attach.ensures((prog,), r.1), filter_program(keys)]
                {
                    &&& attach.ensures((prog,), r.1)
                    &&& prog@ == filter_program(keys)
                    &&& pid_values(keys) == final(self).pending().dom()
                    &&& (r.1 is Ok ==> final(self).installed_pids_seq() == keys)
                }),
    {
        let found = self.find(pid);
        let ghost old_pending = self.pending@;
        let notifiers = match found {
            Some(i) => {
                let entry = self.entries.remove(i);
                self.pending = Ghost(old_pending.remove(pid.value()));
                assert forall|j: int| 0 <= j < self.entries@.len() implies #[trigger] self.entries@[j].pid.value() != pid.value() by {
                    if j < i {
                        assert(self.entries@[j] == old(self).entries@[j]);
                    } else {
                        assert(self.entries@[j] == old(self).entries@[j + 1]);
                    }
                }
                assert forall|k: int| #[trigger] self.pending@.contains_key(k) implies exists|j: int|
                    0 <= j < self.entries@.len() && self.entries@[j].pid.value() == k by {
                    let j = choose|j: int|
                        0 <= j < old(self).entries@.len() && old(self).entries@[j].pid.value() == k;
                    if j < i {
                        assert(self.entries@[j] == old(self).entries@[j]);
                    } else {
                        assert(j != i);
                        assert(self.entries@[j - 1] == old(self).entries@[j]);
                    }
                }
                assert forall|a: int, b: int|
                    0 <= a < self.entries@.len() && 0 <= b < self.entries@.len() && a != b
                    implies self.entries@[a].pid.value() != self.entries@[b].pid.value() by {
                    let oa = if a < i { a } else { a + 1 };
                    let ob = if b < i { b } else { b + 1 };
                    assert(self.entries@[a] == old(self).entries@[oa]);
                    assert(self.entries@[b] == old(self).entries@[ob]);
                }
                assert forall|j: int| 0 <= j < self.entries@.len() implies {
                    &&& self.pending@.contains_key(#[trigger] self.entries@[j].pid.value())
                    &&& self.pending@[self.entries@[j].pid.value()] == self.entries@[j].notifiers@
                } by {
                    let oj = if j < i { j } else { j + 1 };
                    assert(self.entries@[j] == old(self).entries@[oj]);
                }
                entry.notifiers
            },
            None => {
                assert(old_pending.remove(pid.value()) =~= old_pending);
                Vec::new()
            },
        };
        assert(self.wf());
        assert(self.pending@.dom().subset_of(old(self).pending@.dom()));
        let keys = self.keys();
        let prog = assembly_filter(keys.as_slice());
        let ghost sent = prog;
        let ghost sent_keys = keys@;
        let res = attach(prog);
        assert(attach.ensures((sent,), res));
        if res.is_ok() {
            let ghost before = *self;
            self.installed = keys;
            assert(self.entries@ == before.entries@ && self.pending@ == before.pending@);
            assert(self.pending@.dom().subset_of(self.installed()));
        }
        assert(self.wf());
        assert(res is Ok ==> self.installed_pids_seq() == sent_keys);
        (notifiers, res)
    }

    /// No waiter is pending.
    pub fn is_empty(&self) -> (r: bool)
        requires
            self.wf(),
        ensures
            r == (self.pending() == Map::<int, Seq<N>>::empty()),
    {
        if self.entries.len() == 0 {
            assert(self.pending() =~= Map::<int, Seq<N>>::empty());
            true
        } else {
            assert(self.pending().contains_key(self.entries@[0].pid.value()));
            false
        }
    }

    /// The processes compiled into the filter that was last attached.
    pub fn installed_pids(&self) -> (r: Vec<Pid>)
        ensures
            pid_values(r@) == self.installed(),
    {
        let mut out: Vec<Pid> = Vec::new();
        let mut i: usize = 0;
        while i < self.installed.len()
            invariant
                i <= self.installed@.len(),
                out@ == self.installed@.subrange(0, i as int),
            decreases self.installed@.len() - i,
        {
            out.push(self.installed[i]);
            i += 1;
            assert(out@ =~= self.installed@.subrange(0, i as int));
        }
        assert(out@ =~= self.installed@);
        out
    }
}

/// The pending map after a successful `interest(pid, n)`.
pub open spec fn after_interest<N>(m: Map<int, Seq<N>>, k: int, n: N) -> Map<int, Seq<N>> {
    m.insert(k, waiters_of(m, k).push(n))
}

/// The pending map after registering `ns[i]` for `pids[i]`, in order.
pub open spec fn register_all<N>(m: Map<int, Seq<N>>, pids: Seq<Pid>, ns: Seq<N>) -> Map<
    int,
    Seq<N>,
>
    decreases pids.len(),
{
    if pids.len() == 0 || ns.len() == 0 {
        m
    } else {
        after_interest(register_all(m, pids.drop_last(), ns.drop_last()), pids.last().value(), ns.last())
    }
}

/// The pending map after `take_exited` for each of `exits`, in order.
pub open spec fn take_all<N>(m: Map<int, Seq<N>>, exits: Seq<Pid>) -> Map<int, Seq<N>>
    decreases exits.len(),
{
    if exits.len() == 0 {
        m
    } else {
        take_all(m, exits.drop_last()).remove(exits.last().value())
    }
}

proof fn lemma_register_all<N>(pids: Seq<Pid>, ns: Seq<N>)
    requires
        pids.len() == ns.len(),
        distinct_pids(pids),
    ensures
        register_all(Map::empty(), pids, ns).dom() == pid_values(pids),
        forall|i: int|
            0 <= i < pids.len() ==> #[trigger] register_all(Map::empty(), pids, ns)[pids[i].value()]
                == seq![ns[i]],
    decreases pids.len(),
{
    let m = register_all(Map::<int, Seq<N>>::empty(), pids, ns);
    if pids.len() == 0 {
        assert(pid_values(pids) =~= Set::empty());
    } else {
        let init = pids.drop_last();
        assert forall|a: int, b: int|
            0 <= a < init.len() && 0 <= b < init.len() && a != b implies init[a].value()
            != init[b].value() by {
            assert(init[a] == pids[a] && init[b] == pids[b]);
        }
        lemma_register_all(init, ns.drop_last());
        let prev = register_all(Map::<int, Seq<N>>::empty(), init, ns.drop_last());
        let last = pids.last().value();
        assert(!prev.contains_key(last)) by {
            if prev.contains_key(last) {
                let j = choose|j: int| 0 <= j < init.len() && init[j].value() == last;
                assert(pids[j].value() == pids[pids.len() - 1].value());
            }
        }
        assert(pids =~= init.push(pids.last()));
        lemma_pid_values_push(init, pids.last());
        assert(m.dom() =~= pid_values(pids));
        assert forall|i: int| 0 <= i < pids.len() implies #[trigger] m[pids[i].value()] == seq![
            ns[i],
        ] by {
            if i < init.len() {
                assert(init[i] == pids[i]);
                assert(prev[init[i].value()] == seq![ns.drop_last()[i]]);
                assert(pids[i].value() != last);
            } else {
                assert(waiters_of(prev, last) =~= Seq::<N>::empty());
                assert(seq![ns.last()] =~= Seq::<N>::empty().push(ns.last()));
            }
        }
    }
}

proof fn lemma_take_all<N>(m: Map<int, Seq<N>>, exits: Seq<Pid>)
    ensures
        take_all(m, exits).dom() == m.dom().difference(pid_values(exits)),
        forall|k: int| #[trigger]
            take_all(m, exits).contains_key(k) ==> take_all(m, exits)[k] == m[k],
    decreases exits.len(),
{
    if exits.len() == 0 {
        assert(pid_values(exits) =~= Set::empty());
        assert(m.dom().difference(pid_values(exits)) =~= m.dom());
    } else {
        let init = exits.drop_last();
        lemma_take_all(m, init);
        assert(exits =~= init.push(exits.last()));
        lemma_pid_values_push(init, exits.last());
        assert(take_all(m, exits).dom() =~= m.dom().difference(pid_values(exits)));
    }
}

/// Fan-out: register one waiter for each of `pids`, all distinct, then let
/// the processes exit in any order (`exits` holds each of them once). Each
/// exit hands back exactly one notifier, the one registered for that
/// process, and afterwards no waiter is pending.
pub proof fn lemma_fan_out<N>(pids: Seq<Pid>, ns: Seq<N>, exits: Seq<Pid>)
    requires
        pids.len() == ns.len(),
        distinct_pids(pids),
        exits.len() == pids.len(),
        distinct_pids(exits),
        pid_values(exits) == pid_values(pids),
    ensures
        forall|i: int|
            #![trigger pids[i]]
            0 <= i < pids.len() ==> exists|j: int|
                #![trigger exits[j]]
                0 <= j < exits.len() && exits[j].value() == pids[i].value() && waiters_of(
                    take_all(register_all(Map::empty(), pids, ns), exits.take(j)),
                    pids[i].value(),
                ) == seq![ns[i]],
        take_all(register_all(Map::empty(), pids, ns), exits) == Map::<int, Seq<N>>::empty(),
{
    let m = register_all(Map::<int, Seq<N>>::empty(), pids, ns);
    lemma_register_all(pids, ns);
    assert forall|i: int| #![trigger pids[i]] 0 <= i < pids.len() implies exists|j: int|
        #![trigger exits[j]]
        0 <= j < exits.len() && exits[j].value() == pids[i].value() && waiters_of(
            take_all(m, exits.take(j)),
            pids[i].value(),
        ) == seq![ns[i]] by {
        let k = pids[i].value();
        assert(pid_values(pids).contains(k));
        let j = choose|j: int| 0 <= j < exits.len() && exits[j].value() == k;
        let before = exits.take(j);
        lemma_take_all(m, before);
        assert(!pid_values(before).contains(k)) by {
            if pid_values(before).contains(k) {
                let a = choose|a: int| 0 <= a < before.len() && before[a].value() == k;
                assert(exits[a] == before[a]);
            }
        }
        assert(take_all(m, before).contains_key(k));
    }
    lemma_take_all(m, exits);
    assert(take_all(m, exits) =~= Map::<int, Seq<N>>::empty());
}

/// The filter set invariant: whenever the registry is in step, the filter
/// attached last lets a packet through, whole, exactly when it reports the
/// exit of a process that has pending waiters; it drops every other packet.
pub proof fn lemma_installed_filter_matches_waiters<N>(reg: InterestRegistry<N>, pkt: Seq<u8>)
    requires
        reg.synced(),
    ensures
        run_filter(filter_program(reg.installed_pids_seq()), pkt) == if is_exit_report(pkt)
            && pkt.len() >= EVENT_TGID_OFFSET + 4 && reg.pending().contains_key(
            le32_at(pkt, EVENT_TGID_OFFSET as int) as int,
        ) {
            ACCEPT
        } else {
            DROP
        },
{
    lemma_filter_accepts(reg.installed_pids_seq(), pkt);
    let tgid = le32_at(pkt, EVENT_TGID_OFFSET as int) as int;
    assert(reg.installed().contains(tgid) == reg.pending().contains_key(tgid));
}

/// Once every waiter has been handed its exit and the last re-attach
/// succeeded, the attached filter is the one for no process, which drops
/// every packet.
pub proof fn lemma_drained_registry_drops_all<N>(reg: InterestRegistry<N>, pkt: Seq<u8>)
    requires
        reg.synced(),
        reg.pending() == Map::<int, Seq<N>>::empty(),
    ensures
        reg.installed_pids_seq() == Seq::<Pid>::empty(),
        run_filter(filter_program(reg.installed_pids_seq()), pkt) == DROP,
{
    let s = reg.installed_pids_seq();
    if s.len() > 0 {
        assert(pid_values(s).contains(s[0].value()));
    }
    assert(s =~= Seq::<Pid>::empty());
    lemma_installed_filter_matches_waiters(reg, pkt);
}

} // verus!

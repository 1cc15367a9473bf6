//! Properties that hold of every snapshot the correlator builds.

use vstd::prelude::*;
use crate::manager::{
    correlate, kill_targets_of, lemma_dedup, lemma_pid_positions, lemma_port_positions,
    pids_on_port, port_positions, socket_entries, Manager,
};
use crate::model::{entry_for, no_state, PortEntryView, ProtocolInfo, SocketRecord};

verus! {

/// Whether the process table resolves `pid`.
pub open spec fn resolves(names: Map<u32, String>, pid: u32) -> bool {
    names.contains_key(pid)
}

/// The number of (socket, pid) pairs of the socket table whose pid the
/// process table resolves.
pub open spec fn resolved_pairs(sockets: Seq<SocketRecord>, names: Map<u32, String>) -> nat
    decreases sockets.len(),
{
    if sockets.len() == 0 {
        0
    } else {
        resolved_pairs(sockets.drop_last(), names) + sockets.last().associated_pids@.filter(
            |pid: u32| resolves(names, pid),
        ).len()
    }
}

/// `e` is the entry that joins `socket` with one of its pids, named as the
/// process table names it.
pub open spec fn joins(e: PortEntryView, socket: SocketRecord, names: Map<u32, String>) -> bool {
    &&& socket.associated_pids@.contains(e.pid)
    &&& names.contains_key(e.pid)
    &&& e == entry_for(socket, e.pid, names[e.pid]@)
}

proof fn lemma_socket_entries_count(socket: SocketRecord, pids: Seq<u32>, names: Map<u32, String>)
    ensures
        socket_entries(socket, pids, names).len() == pids.filter(|pid: u32| resolves(names, pid)).len(),
    decreases pids.len(),
{
    reveal(Seq::filter);
    if pids.len() > 0 {
        lemma_socket_entries_count(socket, pids.drop_last(), names);
    }
}

/// The snapshot holds one entry for each (socket, pid) pair whose pid the
/// process table resolves, and no other.
pub proof fn lemma_entry_count(sockets: Seq<SocketRecord>, names: Map<u32, String>)
    ensures
        correlate(sockets, names).len() == resolved_pairs(sockets, names),
    decreases sockets.len(),
{
    if sockets.len() > 0 {
        lemma_entry_count(sockets.drop_last(), names);
        lemma_socket_entries_count(sockets.last(), sockets.last().associated_pids@, names);
    }
}

proof fn lemma_socket_entries_join(socket: SocketRecord, pids: Seq<u32>, names: Map<u32, String>)
    requires
        forall|p: u32| pids.contains(p) ==> socket.associated_pids@.contains(p),
    ensures
        forall|i: int|
            0 <= i < socket_entries(socket, pids, names).len() ==> joins(
                #[trigger] socket_entries(socket, pids, names)[i],
                socket,
                names,
            ),
    decreases pids.len(),
{
    if pids.len() > 0 {
        let d = pids.drop_last();
        assert forall|p: u32| d.contains(p) implies socket.associated_pids@.contains(p) by {
            let k = choose|k: int| 0 <= k < d.len() && d[k] == p;
            assert(pids[k] == p);
            assert(pids.contains(p));
        }
        lemma_socket_entries_join(socket, d, names);
        assert(pids[pids.len() - 1] == pids.last());
        assert(pids.contains(pids.last()));
        let all = socket_entries(socket, pids, names);
        let rest = socket_entries(socket, d, names);
        assert forall|i: int| 0 <= i < all.len() implies joins(#[trigger] all[i], socket, names) by {
            if i < rest.len() {
                assert(all[i] == rest[i]);
            }
        }
    }
}

/// Every entry joins a socket of the table with one of its pids: it carries
/// the socket's port, its protocol, and its state, which is the reported
/// connection state for TCP and the fixed `N/A` for UDP.
pub proof fn lemma_entry_provenance(sockets: Seq<SocketRecord>, names: Map<u32, String>)
    ensures
        forall|i: int|
            0 <= i < correlate(sockets, names).len() ==> exists|j: int|
                0 <= j < sockets.len() && joins(
                    #[trigger] correlate(sockets, names)[i],
                    #[trigger] sockets[j],
                    names,
                ),
        forall|i: int|
            0 <= i < correlate(sockets, names).len() && (#[trigger] correlate(sockets, names)[i]).protocol
                == ProtocolInfo::UDP ==> correlate(sockets, names)[i].state == no_state(),
    decreases sockets.len(),
{
    if sockets.len() > 0 {
        let d = sockets.drop_last();
        let last = sockets.last();
        lemma_entry_provenance(d, names);
        lemma_socket_entries_join(last, last.associated_pids@, names);
        let c = correlate(sockets, names);
        let cd = correlate(d, names);
        let tail = socket_entries(last, last.associated_pids@, names);
        assert forall|i: int| 0 <= i < c.len() implies exists|j: int|
            0 <= j < sockets.len() && joins(#[trigger] c[i], #[trigger] sockets[j], names) by {
            if i < cd.len() {
                assert(c[i] == cd[i]);
                let j = choose|j: int| 0 <= j < d.len() && joins(cd[i], d[j], names);
                assert(sockets[j] == d[j]);
            } else {
                assert(c[i] == tail[i - cd.len()]);
                assert(sockets[sockets.len() - 1] == last);
            }
        }
    }
}

/// Every position listed under a port refers to an entry on that port, and
/// every position listed under a pid refers to an entry of that pid.
pub proof fn lemma_index_positions_valid(m: &Manager)
    requires
        m.wf(),
    ensures
        forall|p: u16, j: int|
            #[trigger] m.by_port@.contains_key(p) && 0 <= j < m.by_port@[p]@.len() ==> {
                &&& (#[trigger] m.by_port@[p]@[j]) < m.entries().len()
                &&& m.entries()[m.by_port@[p]@[j] as int].port == p
            },
        forall|q: u32, j: int|
            #[trigger] m.by_process@.contains_key(q) && 0 <= j < m.by_process@[q]@.len() ==> {
                &&& (#[trigger] m.by_process@[q]@[j]) < m.entries().len()
                &&& m.entries()[m.by_process@[q]@[j] as int].pid == q
            },
{
    assert forall|p: u16, j: int|
        #[trigger] m.by_port@.contains_key(p) && 0 <= j < m.by_port@[p]@.len() implies {
            &&& (#[trigger] m.by_port@[p]@[j]) < m.entries().len()
            &&& m.entries()[m.by_port@[p]@[j] as int].port == p
        } by {
        lemma_port_positions(m.entries(), p);
        assert(m.by_port@[p]@[j] == port_positions(m.entries(), p)[j]);
    }
    assert forall|q: u32, j: int|
        #[trigger] m.by_process@.contains_key(q) && 0 <= j < m.by_process@[q]@.len() implies {
            &&& (#[trigger] m.by_process@[q]@[j]) < m.entries().len()
            &&& m.entries()[m.by_process@[q]@[j] as int].pid == q
        } by {
        lemma_pid_positions(m.entries(), q);
    }
}

/// Killing by port targets each distinct owner of the port exactly once:
/// the targets hold no pid twice, and a pid is a target exactly when some
/// entry on the port belongs to it.
pub proof fn lemma_kill_targets_distinct(m: &Manager, port: u16)
    requires
        m.wf(),
    ensures
        kill_targets_of(m.entries(), port).no_duplicates(),
        forall|pid: u32|
            #[trigger] kill_targets_of(m.entries(), port).contains(pid) <==> exists|i: int|
                0 <= i < m.entries().len() && (#[trigger] m.entries()[i]).port == port
                    && m.entries()[i].pid == pid,
{
    let e = m.entries();
    let s = pids_on_port(e, port);
    let pp = port_positions(e, port);
    lemma_dedup(s);
    lemma_port_positions(e, port);
    assert forall|pid: u32|
        #[trigger] kill_targets_of(e, port).contains(pid) <==> exists|i: int|
            0 <= i < e.len() && (#[trigger] e[i]).port == port && e[i].pid == pid by {
        if s.contains(pid) {
            let j = choose|j: int| 0 <= j < s.len() && s[j] == pid;
            assert(pp[j] < e.len());
            assert(e[pp[j] as int].port == port);
        }
        if exists|i: int| 0 <= i < e.len() && (#[trigger] e[i]).port == port && e[i].pid == pid {
            let i = choose|i: int| 0 <= i < e.len() && (#[trigger] e[i]).port == port && e[i].pid == pid;
            assert(pp.contains(i as usize));
            let j = choose|j: int| 0 <= j < pp.len() && pp[j] == i as usize;
            assert(s[j] == pid);
        }
    }
}

/// Killing by a port that no entry is on targets nobody.
pub proof fn lemma_kill_targets_unknown_port(m: &Manager, port: u16)
    requires
        m.wf(),
        !m.by_port@.contains_key(port),
    ensures
        kill_targets_of(m.entries(), port).len() == 0,
{
    assert(pids_on_port(m.entries(), port) =~= Seq::<u32>::empty());
}

proof fn lemma_socket_entries_complete(socket: SocketRecord, pids: Seq<u32>, names: Map<u32, String>)
    ensures
        forall|p: u32|
            pids.contains(p) && names.contains_key(p) ==> #[trigger] socket_entries(
                socket,
                pids,
                names,
            ).contains(entry_for(socket, p, names[p]@)),
    decreases pids.len(),
{
    if pids.len() > 0 {
        let d = pids.drop_last();
        lemma_socket_entries_complete(socket, d, names);
        let all = socket_entries(socket, pids, names);
        let rest = socket_entries(socket, d, names);
        assert(all == if names.contains_key(pids.last()) {
            rest.push(entry_for(socket, pids.last(), names[pids.last()]@))
        } else {
            rest
        });
        assert forall|p: u32| pids.contains(p) && names.contains_key(p) implies #[trigger] socket_entries(
            socket,
            pids,
            names,
        ).contains(entry_for(socket, p, names[p]@)) by {
            let k = choose|k: int| 0 <= k < pids.len() && pids[k] == p;
            if k < d.len() {
                assert(d[k] == p);
                assert(d.contains(p));
                assert(rest.contains(entry_for(socket, p, names[p]@)));
                let w = choose|w: int| 0 <= w < rest.len() && rest[w] == entry_for(socket, p, names[p]@);
                assert(all[w] == rest[w]);
            } else {
                assert(all[all.len() - 1] == entry_for(socket, p, names[p]@));
            }
        }
    }
}

/// Every (socket, pid) pair whose pid the process table resolves has its
/// entry among the joined entries.
pub proof fn lemma_entry_completeness(sockets: Seq<SocketRecord>, names: Map<u32, String>)
    ensures
        forall|j: int, p: u32|
            0 <= j < sockets.len() && (#[trigger] sockets[j]).associated_pids@.contains(p)
                && names.contains_key(p) ==> #[trigger] correlate(sockets, names).contains(
                entry_for(sockets[j], p, names[p]@),
            ),
    decreases sockets.len(),
{
    if sockets.len() > 0 {
        let d = sockets.drop_last();
        let last = sockets.last();
        lemma_entry_completeness(d, names);
        lemma_socket_entries_complete(last, last.associated_pids@, names);
        let c = correlate(sockets, names);
        let cd = correlate(d, names);
        let tail = socket_entries(last, last.associated_pids@, names);
        assert forall|j: int, p: u32|
            0 <= j < sockets.len() && (#[trigger] sockets[j]).associated_pids@.contains(p)
                && names.contains_key(p) implies #[trigger] correlate(sockets, names).contains(
                entry_for(sockets[j], p, names[p]@),
            ) by {
            let x = entry_for(sockets[j], p, names[p]@);
            if j < d.len() {
                assert(d[j] == sockets[j]);
                assert(cd.contains(x));
                let w = choose|w: int| 0 <= w < cd.len() && cd[w] == x;
                assert(c[w] == x);
            } else {
                assert(tail.contains(x));
                let w = choose|w: int| 0 <= w < tail.len() && tail[w] == x;
                assert(c[cd.len() + w] == x);
            }
        }
    }
}

/// What holds of a snapshot built from a socket table and a process table:
/// it has one entry per resolved (socket, pid) pair; every resolved pair
/// has its entry; every entry resolves; and every index position refers to
/// an entry with the bucket's port or pid.
pub proof fn lemma_built_snapshot(m: &Manager, sockets: Seq<SocketRecord>, names: Map<u32, String>)
    requires
        m.wf(),
        m.entries() == correlate(sockets, names),
    ensures
        m.port_infos@.len() == resolved_pairs(sockets, names),
        forall|j: int, p: u32|
            0 <= j < sockets.len() && #[trigger] sockets[j].associated_pids@.contains(p)
                && names.contains_key(p) ==> exists|i: int|
                0 <= i < m.port_infos@.len() && (#[trigger] m.port_infos@[i]).port_number
                    == sockets[j].local_port && m.port_infos@[i].pid == p,
        forall|i: int|
            0 <= i < m.port_infos@.len() ==> names.contains_key((#[trigger] m.port_infos@[i]).pid),
        forall|x: u16, i: usize|
            #[trigger] m.by_port@.contains_key(x) && #[trigger] m.by_port@[x]@.contains(i) ==> i
                < m.port_infos@.len() && m.port_infos@[i as int].port_number == x,
        forall|y: u32, i: usize|
            #[trigger] m.by_process@.contains_key(y) && #[trigger] m.by_process@[y]@.contains(i) ==> i
                < m.port_infos@.len() && m.port_infos@[i as int].pid == y,
{
    let e = m.entries();
    lemma_entry_count(sockets, names);
    lemma_entry_completeness(sockets, names);
    lemma_entry_provenance(sockets, names);
    lemma_index_positions_valid(m);
    assert forall|j: int, p: u32|
        0 <= j < sockets.len() && #[trigger] sockets[j].associated_pids@.contains(p)
            && names.contains_key(p) implies exists|i: int|
            0 <= i < m.port_infos@.len() && (#[trigger] m.port_infos@[i]).port_number
                == sockets[j].local_port && m.port_infos@[i].pid == p by {
        let x = entry_for(sockets[j], p, names[p]@);
        assert(e.contains(x));
        let w = choose|w: int| 0 <= w < e.len() && e[w] == x;
        assert(m.port_infos@[w]@ == e[w]);
    }
    assert forall|i: int| 0 <= i < m.port_infos@.len() implies names.contains_key(
        (#[trigger] m.port_infos@[i]).pid,
    ) by {
        assert(e[i] == m.port_infos@[i]@);
        let j = choose|j: int| 0 <= j < sockets.len() && joins(e[i], sockets[j], names);
    }
    assert forall|x: u16, i: usize|
        #[trigger] m.by_port@.contains_key(x) && #[trigger] m.by_port@[x]@.contains(i) implies i
            < m.port_infos@.len() && m.port_infos@[i as int].port_number == x by {
        let k = choose|k: int| 0 <= k < m.by_port@[x]@.len() && m.by_port@[x]@[k] == i;
        assert(m.by_port@[x]@[k] < e.len());
        assert(e[i as int] == m.port_infos@[i as int]@);
    }
    assert forall|y: u32, i: usize|
        #[trigger] m.by_process@.contains_key(y) && #[trigger] m.by_process@[y]@.contains(i) implies i
            < m.port_infos@.len() && m.port_infos@[i as int].pid == y by {
        let k = choose|k: int| 0 <= k < m.by_process@[y]@.len() && m.by_process@[y]@[k] == i;
        assert(m.by_process@[y]@[k] < e.len());
        assert(e[i as int] == m.port_infos@[i as int]@);
    }
}

} // verus!

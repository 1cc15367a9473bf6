//! The snapshot: the joined entries and the two indexes over them.

use vstd::prelude::*;
use std::collections::HashMap;
use crate::model::{entry_for, PortEntryView, PortInfo, SocketRecord};

verus! {

broadcast use vstd::std_specs::hash::group_hash_axioms;

/// The entries that one socket yields for the pids in `pids`, in order:
/// one for each pid that `names` resolves.
pub open spec fn socket_entries(
    socket: SocketRecord,
    pids: Seq<u32>,
    names: Map<u32, String>,
) -> Seq<PortEntryView>
    decreases pids.len(),
{
    if pids.len() == 0 {
        Seq::empty()
    } else {
        let rest = socket_entries(socket, pids.drop_last(), names);
        let pid = pids.last();
        if names.contains_key(pid) {
            rest.push(entry_for(socket, pid, names[pid]@))
        } else {
            rest
        }
    }
}

/// The joined entries of a socket table and a process table, in the order
/// of the sockets and, within a socket, of its pids.
pub open spec fn correlate(sockets: Seq<SocketRecord>, names: Map<u32, String>) -> Seq<PortEntryView>
    decreases sockets.len(),
{
    if sockets.len() == 0 {
        Seq::empty()
    } else {
        correlate(sockets.drop_last(), names) + socket_entries(
            sockets.last(),
            sockets.last().associated_pids@,
            names,
        )
    }
}

/// The positions, in increasing order, of the entries on `port`.
pub open spec fn port_positions(e: Seq<PortEntryView>, port: u16) -> Seq<usize>
    decreases e.len(),
{
    if e.len() == 0 {
        Seq::empty()
    } else {
        let rest = port_positions(e.drop_last(), port);
        if e.last().port == port {
            rest.push((e.len() - 1) as usize)
        } else {
            rest
        }
    }
}

/// The positions, in increasing order, of the entries owned by `pid`.
pub open spec fn pid_positions(e: Seq<PortEntryView>, pid: u32) -> Seq<usize>
    decreases e.len(),
{
    if e.len() == 0 {
        Seq::empty()
    } else {
        let rest = pid_positions(e.drop_last(), pid);
        if e.last().pid == pid {
            rest.push((e.len() - 1) as usize)
        } else {
            rest
        }
    }
}

/// The pids of the entries on `port`, in the order of their positions.
pub open spec fn pids_on_port(e: Seq<PortEntryView>, port: u16) -> Seq<u32> {
    port_positions(e, port).map_values(|i: usize| e[i as int].pid)
}

/// `s` with every repeated value removed, first occurrences kept in order.
pub open spec fn dedup(s: Seq<u32>) -> Seq<u32>
    decreases s.len(),
{
    if s.len() == 0 {
        Seq::empty()
    } else {
        let rest = dedup(s.drop_last());
        if rest.contains(s.last()) {
            rest
        } else {
            rest.push(s.last())
        }
    }
}

/// The distinct pids that own `port`, each once, in order of first position.
pub open spec fn kill_targets_of(e: Seq<PortEntryView>, port: u16) -> Seq<u32> {
    dedup(pids_on_port(e, port))
}

/// Every position listed for a port is a valid position of an entry on that
/// port, and every entry on the port is listed.
pub proof fn lemma_port_positions(e: Seq<PortEntryView>, port: u16)
    requires
        e.len() <= usize::MAX,
    ensures
        forall|j: int|
            0 <= j < port_positions(e, port).len() ==> {
                &&& (#[trigger] port_positions(e, port)[j]) < e.len()
                &&& e[port_positions(e, port)[j] as int].port == port
            },
        forall|i: int|
            0 <= i < e.len() && #[trigger] e[i].port == port ==> port_positions(e, port).contains(
                i as usize,
            ),
    decreases e.len(),
{
    if e.len() > 0 {
        let d = e.drop_last();
        lemma_port_positions(d, port);
        assert forall|i: int| 0 <= i < e.len() && #[trigger] e[i].port == port implies port_positions(e, port).contains(i as usize) by {
            if i < d.len() {
                assert(d[i].port == port);
                let j = choose|j: int| 0 <= j < port_positions(d, port).len() && port_positions(d, port)[j] == i as usize;
                assert(port_positions(e, port)[j] == i as usize);
            } else {
                assert(port_positions(e, port).last() == i as usize);
            }
        }
    }
}

/// Every position listed for a pid is a valid position of an entry owned by
/// that pid, and every entry of the pid is listed.
pub proof fn lemma_pid_positions(e: Seq<PortEntryView>, pid: u32)
    requires
        e.len() <= usize::MAX,
    ensures
        forall|j: int|
            0 <= j < pid_positions(e, pid).len() ==> {
                &&& (#[trigger] pid_positions(e, pid)[j]) < e.len()
                &&& e[pid_positions(e, pid)[j] as int].pid == pid
            },
        forall|i: int|
            0 <= i < e.len() && #[trigger] e[i].pid == pid ==> pid_positions(e, pid).contains(
                i as usize,
            ),
    decreases e.len(),
{
    if e.len() > 0 {
        let d = e.drop_last();
        lemma_pid_positions(d, pid);
        assert forall|i: int| 0 <= i < e.len() && #[trigger] e[i].pid == pid implies pid_positions(e, pid).contains(i as usize) by {
            if i < d.len() {
                assert(d[i].pid == pid);
                let j = choose|j: int| 0 <= j < pid_positions(d, pid).len() && pid_positions(d, pid)[j] == i as usize;
                assert(pid_positions(e, pid)[j] == i as usize);
            } else {
                assert(pid_positions(e, pid).last() == i as usize);
            }
        }
    }
}

/// Removing repetitions leaves no duplicates and keeps exactly the values
/// that occur.
pub proof fn lemma_dedup(s: Seq<u32>)
    ensures
        dedup(s).no_duplicates(),
        forall|x: u32| dedup(s).contains(x) <==> s.contains(x),
    decreases s.len(),
{
    if s.len() > 0 {
        let d = s.drop_last();
        lemma_dedup(d);
        let r = dedup(d);
        assert forall|x: u32| s.contains(x) <==> (d.contains(x) || x == s.last()) by {
            if s.contains(x) {
                let i = choose|i: int| 0 <= i < s.len() && s[i] == x;
                if i < d.len() {
                    assert(d[i] == x);
                }
            }
            if d.contains(x) {
                let i = choose|i: int| 0 <= i < d.len() && d[i] == x;
                assert(s[i] == x);
            }
            if x == s.last() {
                assert(s[s.len() - 1] == x);
            }
        }
        if !r.contains(s.last()) {
            let t = r.push(s.last());
            assert forall|x: u32| t.contains(x) <==> (r.contains(x) || x == s.last()) by {
                if t.contains(x) {
                    let i = choose|i: int| 0 <= i < t.len() && t[i] == x;
                    if i < r.len() {
                        assert(r[i] == x);
                    }
                }
                if r.contains(x) {
                    let i = choose|i: int| 0 <= i < r.len() && r[i] == x;
                    assert(t[i] == x);
                }
                if x == s.last() {
                    assert(t[t.len() - 1] == x);
                }
            }
            assert forall|i: int, j: int| 0 <= i < t.len() && 0 <= j < t.len() && i != j implies t[i] != t[j] by {
                if i == t.len() - 1 {
                    assert(r[j] == t[j]);
                } else if j == t.len() - 1 {
                    assert(r[i] == t[i]);
                }
            }
        }
    }
}

/// The joined entries with an index by port and an index by pid.
#[derive(Debug)]
pub struct Manager {
    pub port_infos: Vec<PortInfo>,
    pub by_port: HashMap<u16, Vec<usize>>,
    pub by_process: HashMap<u32, Vec<usize>>,
}

impl Manager {
    /// The entries as abstract values.
    pub open spec fn entries(&self) -> Seq<PortEntryView> {
        self.port_infos@.map_values(|p: PortInfo| p@)
    }

    /// Each index holds a bucket for exactly the keys that some entry has,
    /// and the bucket lists the positions of those entries in order.
    pub open spec fn wf(&self) -> bool {
        &&& self.port_infos@.len() <= usize::MAX
        &&& forall|p: u16| #[trigger]
            self.by_port@.contains_key(p) <==> port_positions(self.entries(), p).len() > 0
        &&& forall|p: u16| #[trigger]
            self.by_port@.contains_key(p) ==> self.by_port@[p]@ == port_positions(self.entries(), p)
        &&& forall|q: u32| #[trigger]
            self.by_process@.contains_key(q) <==> pid_positions(self.entries(), q).len() > 0
        &&& forall|q: u32| #[trigger]
            self.by_process@.contains_key(q) ==> self.by_process@[q]@ == pid_positions(
                self.entries(),
                q,
            )
    }

    /// A snapshot with no entries.
    pub fn new() -> (r: Manager)
        ensures
            r.wf(),
            r.entries() == Seq::<PortEntryView>::empty(),
    {
        let r = Manager { port_infos: Vec::new(), by_port: HashMap::new(), by_process: HashMap::new() };
        proof {
            assert(r.entries() =~= Seq::<PortEntryView>::empty());
        }
        r
    }

    /// Appends an entry and records its position under its port and its pid.
    fn push_entry(&mut self, info: PortInfo)
        requires
            old(self).wf(),
        ensures
            final(self).wf(),
            final(self).entries() == old(self).entries().push(info@),
    {
        let i = self.port_infos.len();
        let port = info.port_number;
        let pid = info.pid;
        let ghost e0 = self.entries();
        self.port_infos.push(info);
        // the length of a Vec always fits in usize
        let _len = self.port_infos.len();
        let ghost e1 = self.entries();
        assert(e1 =~= e0.push(info@));
        assert(e1.drop_last() =~= e0);

        let mut ports = match self.by_port.remove(&port) {
            Some(b) => b,
            None => Vec::new(),
        };
        ports.push(i);
        self.by_port.insert(port, ports);

        let mut owned = match self.by_process.remove(&pid) {
            Some(b) => b,
            None => Vec::new(),
        };
        owned.push(i);
        self.by_process.insert(pid, owned);

        assert forall|p: u16| #[trigger] self.by_port@.contains_key(p) <==> port_positions(e1, p).len() > 0 by {
            assert(port_positions(e1, p) == if p == port { port_positions(e0, p).push(i) } else { port_positions(e0, p) });
        }
        assert forall|p: u16| #[trigger] self.by_port@.contains_key(p) implies self.by_port@[p]@ == port_positions(e1, p) by {
            assert(port_positions(e1, p) == if p == port { port_positions(e0, p).push(i) } else { port_positions(e0, p) });
            if p == port && !old(self).by_port@.contains_key(p) {
                assert(port_positions(e0, p) =~= Seq::<usize>::empty());
            }
        }
        assert forall|q: u32| #[trigger] self.by_process@.contains_key(q) <==> pid_positions(e1, q).len() > 0 by {
            assert(pid_positions(e1, q) == if q == pid { pid_positions(e0, q).push(i) } else { pid_positions(e0, q) });
        }
        assert forall|q: u32| #[trigger] self.by_process@.contains_key(q) implies self.by_process@[q]@ == pid_positions(e1, q) by {
            assert(pid_positions(e1, q) == if q == pid { pid_positions(e0, q).push(i) } else { pid_positions(e0, q) });
            if q == pid && !old(self).by_process@.contains_key(q) {
                assert(pid_positions(e0, q) =~= Seq::<usize>::empty());
            }
        }
    }

    /// Joins every socket with each of its pids that the process table
    /// resolves (pid to process name), skipping pids that it does not, and
    /// indexes the resulting entries by port and by pid.
    pub fn build(sockets: &Vec<SocketRecord>, processes: &HashMap<u32, String>) -> (r: Manager)
        ensures
            r.wf(),
            r.entries() == correlate(sockets@, processes@),
    {
        let mut m = Manager::new();
        let mut s: usize = 0;
        while s < sockets.len()
            invariant
                s <= sockets@.len(),
                m.wf(),
                m.entries() == correlate(sockets@.take(s as int), processes@),
            decreases sockets@.len() - s,
        {
            let socket = &sockets[s];
            let ghost before = m.entries();
            let mut k: usize = 0;
            while k < socket.associated_pids.len()
                invariant
                    k <= socket.associated_pids@.len(),
                    m.wf(),
                    m.entries() == before + socket_entries(
                        *socket,
                        socket.associated_pids@.take(k as int),
                        processes@,
                    ),
                decreases socket.associated_pids@.len() - k,
            {
                let pid = socket.associated_pids[k];
                let ghost pids = socket.associated_pids@;
                assert(pids.take(k + 1).drop_last() =~= pids.take(k as int));
                match processes.get(&pid) {
                    Some(name) => {
                        let info = PortInfo::from_socket(socket, pid, name.clone());
                        m.push_entry(info);
                    },
                    None => {},
                }
                k += 1;
            }
            proof {
                let t = sockets@.take(s + 1);
                assert(t.drop_last() =~= sockets@.take(s as int));
                assert(socket.associated_pids@.take(k as int) =~= socket.associated_pids@);
            }
            s += 1;
        }
        assert(sockets@.take(s as int) =~= sockets@);
        m
    }

    /// The distinct pids that own `port`, each once, in the order in which
    /// they first occur among the entries on the port; empty where no entry
    /// is on the port.
    pub fn kill_targets(&self, port: u16) -> (r: Vec<u32>)
        requires
            self.wf(),
        ensures
            r@ == kill_targets_of(self.entries(), port),
    {
        let ghost e = self.entries();
        let ghost positions = port_positions(e, port);
        let mut out: Vec<u32> = Vec::new();
        match self.by_port.get(&port) {
            Some(bucket) => {
                proof {
                    lemma_port_positions(e, port);
                }
                let mut k: usize = 0;
                while k < bucket.len()
                    invariant
                        self.wf(),
                        e == self.entries(),
                        positions == port_positions(e, port),
                        bucket@ == positions,
                        forall|j: int| 0 <= j < positions.len() ==> (#[trigger] positions[j]) < e.len(),
                        k <= bucket@.len(),
                        out@ == dedup(positions.take(k as int).map_values(|i: usize| e[i as int].pid)),
                    decreases bucket@.len() - k,
                {
                    let idx = bucket[k];
                    let pid = self.port_infos[idx].pid;
                    let ghost before = positions.take(k as int).map_values(|i: usize| e[i as int].pid);
                    let ghost after = positions.take(k + 1).map_values(|i: usize| e[i as int].pid);
                    assert(after.drop_last() =~= before);
                    assert(after.last() == pid);
                    let mut seen = false;
                    let mut t: usize = 0;
                    while t < out.len()
                        invariant
                            t <= out@.len(),
                            seen <==> exists|w: int| 0 <= w < t && #[trigger] out@[w] == pid,
                        decreases out@.len() - t,
                    {
                        if out[t] == pid {
                            seen = true;
                        }
                        t += 1;
                    }
                    if !seen {
                        out.push(pid);
                    }
                    k += 1;
                }
                assert(positions.take(k as int) =~= positions);
            },
            None => {
                assert(pids_on_port(e, port) =~= Seq::<u32>::empty());
            },
        }
        out
    }
}

} // verus!

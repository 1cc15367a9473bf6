//! Actions on the live process table: killing a process, reading its
//! details, and killing every owner of a port.

use vstd::prelude::*;
use vstd::string::StringExecFns;
use chrono::{Local, TimeZone, Utc};
use sysinfo::{Pid, Process, System};
use crate::laws::lemma_kill_targets_unknown_port;
use crate::manager::{kill_targets_of, Manager};
use crate::model::{Choices, PortEntryView, PortInfo};
use crate::text::{dec, decimal, duration_text, human_readable_date};

verus! {

/// The live process table of sysinfo.
#[verifier::external_type_specification]
#[verifier::external_body]
pub struct ExSystem(System);

/// One process of sysinfo's table.
#[verifier::external_type_specification]
#[verifier::external_body]
pub struct ExProcess(Process);

/// sysinfo's process identifier.
#[verifier::external_type_specification]
#[verifier::external_body]
pub struct ExPid(Pid);

/// The pids of the processes that a sysinfo table holds.
pub uninterp spec fn live_pids(s: System) -> Set<u32>;

/// Relies on sysinfo's `System::process` (with `Pid::from_u32` to convert
/// the pid): the process with that pid if the table holds one, else `None`.
#[verifier::external_body]
fn lookup(sys: &System, pid: u32) -> (r: Option<&Process>)
    ensures
        r.is_some() == live_pids(*sys).contains(pid),
{
    sys.process(Pid::from_u32(pid))
}

/// Relies on sysinfo's `Process::kill`: sends the kill signal and reports
/// whether it was sent.
pub assume_specification[ Process::kill ](p: &Process) -> bool;

/// Relies on sysinfo's `Process::memory`: resident memory in bytes.
pub assume_specification[ Process::memory ](p: &Process) -> u64;

/// Relies on sysinfo's `Process::run_time`: seconds since the process started.
pub assume_specification[ Process::run_time ](p: &Process) -> u64;

/// Relies on sysinfo's `Process::start_time`: start time in seconds since the epoch.
pub assume_specification[ Process::start_time ](p: &Process) -> u64;

/// Relies on sysinfo's `Process::cmd`: the command line, written as a list
/// of quoted arguments.
#[verifier::external_body]
fn command_line(p: &Process) -> String {
    format!("{:?}", p.cmd())
}

/// Relies on chrono's `Utc.timestamp_opt` and `with_timezone(&Local)`: a
/// time in seconds since the epoch, written in the machine's time zone;
/// `None` where chrono cannot represent it.
#[verifier::external_body]
fn local_time_text(secs: u64) -> Option<String> {
    match Utc.timestamp_opt(secs as i64, 0).single() {
        Some(t) => Some(format!("{}", t.with_timezone(&Local))),
        None => None,
    }
}

/// What became of a termination request.
#[derive(Debug, Clone, Copy, PartialEq, Eq, Structural)]
pub enum KillOutcome {
    /// No process with that pid is running any more; nothing was sent.
    Gone,
    /// The kill signal was sent.
    Sent,
    /// The process exists but the signal could not be sent.
    Failed,
}

/// The outcome of the termination request for one pid.
#[derive(Debug, Clone, Copy, PartialEq, Eq, Structural)]
pub struct KillReport {
    pub pid: u32,
    pub outcome: KillOutcome,
}

/// What an action on a chosen entry came to.
#[derive(Debug)]
pub enum EventOutcome {
    /// The entry's process is no longer running; nothing was done.
    ProcessGone,
    /// A termination request was made for the entry's process.
    Killed { pid: u32, name: String, sent: bool },
    /// The entry's details, one line each.
    Details { name: String, lines: Vec<String> },
}

/// The detail lines shown for an entry, given what the live process reports.
pub open spec fn detail_text(
    e: PortEntryView,
    memory: u64,
    run_time: u64,
    start: Seq<char>,
    command: Seq<char>,
) -> Seq<Seq<char>> {
    seq![
        "Port number: "@ + dec(e.port as nat),
        "Port status: "@ + e.state,
        "Memory Usage: "@ + dec(memory as nat) + " bytes"@,
        "Run time: "@ + duration_text(run_time as nat),
        "Start time: "@ + start,
        "Command: "@ + command,
    ]
}

impl PortInfo {
    /// The detail lines for this entry, from the process's memory use, run
    /// time in seconds, start time and command line.
    pub fn detail_lines(&self, memory: u64, run_time: u64, start: &str, command: &str) -> (r: Vec<String>)
        ensures
            r@.map_values(|s: String| s@) == detail_text(self@, memory, run_time, start@, command@),
    {
        let mut lines: Vec<String> = Vec::new();
        let mut l0 = String::from_str("Port number: ");
        l0.append(decimal(self.port_number as u64).as_str());
        lines.push(l0);
        let mut l1 = String::from_str("Port status: ");
        l1.append(self.port_status.as_str());
        lines.push(l1);
        let mut l2 = String::from_str("Memory Usage: ");
        l2.append(decimal(memory).as_str());
        l2.append(" bytes");
        lines.push(l2);
        let mut l3 = String::from_str("Run time: ");
        l3.append(human_readable_date(run_time).as_str());
        lines.push(l3);
        let mut l4 = String::from_str("Start time: ");
        l4.append(start);
        lines.push(l4);
        let mut l5 = String::from_str("Command: ");
        l5.append(command);
        lines.push(l5);
        proof {
            assert(lines@.map_values(|s: String| s@) =~= detail_text(self@, memory, run_time, start@, command@));
        }
        lines
    }
}

/// Looks `pid` up in the live table and, if it is there, asks for its
/// termination. Nothing is sent for a pid that is no longer running;
/// otherwise the outcome says whether the signal was sent.
pub fn kill_process_by_pid(sys: &System, pid: u32) -> (r: KillOutcome)
    ensures
        (r == KillOutcome::Gone) == !live_pids(*sys).contains(pid),
{
    match lookup(sys, pid) {
        Some(p) => {
            if p.kill() {
                KillOutcome::Sent
            } else {
                KillOutcome::Failed
            }
        },
        None => KillOutcome::Gone,
    }
}

impl Manager {
    /// Carries out `event` on the chosen entry against the live table. The
    /// pid is looked up afresh; if it is gone nothing is done. Kill asks for
    /// the termination of the entry's pid and of no other; ViewDetails reads
    /// the process's current figures.
    pub fn handle_event(&self, event: Choices, picked: &PortInfo, sys: &System) -> (r: EventOutcome)
        ensures
            (r is ProcessGone) == !live_pids(*sys).contains(picked.pid),
            match r {
                EventOutcome::ProcessGone => true,
                EventOutcome::Killed { pid, name, sent } => event == Choices::Kill && pid
                    == picked.pid && name@ == picked.process_name@,
                EventOutcome::Details { name, lines } => event == Choices::ViewDetails && name@
                    == picked.process_name@ && exists|memory: u64, run_time: u64, start: Seq<char>, command: Seq<char>|
                    lines@.map_values(|s: String| s@) == #[trigger] detail_text(picked@, memory, run_time, start, command),
            },
    {
        match lookup(sys, picked.pid) {
            None => EventOutcome::ProcessGone,
            Some(p) => {
                match event {
                    Choices::Kill => {
                        let sent = p.kill();
                        EventOutcome::Killed { pid: picked.pid, name: picked.process_name.clone(), sent }
                    },
                    Choices::ViewDetails => {
                        let memory = p.memory();
                        let run_time = p.run_time();
                        let start = match local_time_text(p.start_time()) {
                            Some(t) => t,
                            None => String::from_str("unknown"),
                        };
                        let command = command_line(p);
                        let lines = picked.detail_lines(memory, run_time, start.as_str(), command.as_str());
                        EventOutcome::Details { name: picked.process_name.clone(), lines }
                    },
                }
            },
        }
    }

    /// Asks for the termination of every distinct process that owns `port`,
    /// once each, in the order of `kill_targets`. A pid that is gone or
    /// cannot be signalled does not stop the others. A port with no entry
    /// leads to no request at all.
    pub fn kill_process_by_port(&self, port: u16, sys: &System) -> (r: Vec<KillReport>)
        requires
            self.wf(),
        ensures
            r@.map_values(|k: KillReport| k.pid) == kill_targets_of(self.entries(), port),
            !self.by_port@.contains_key(port) ==> r@.len() == 0,
            forall|k: int|
                0 <= k < r@.len() ==> ((#[trigger] r@[k]).outcome == KillOutcome::Gone)
                    == !live_pids(*sys).contains(r@[k].pid),
    {
        let targets = self.kill_targets(port);
        let mut reports: Vec<KillReport> = Vec::new();
        let mut i: usize = 0;
        while i < targets.len()
            invariant
                i <= targets@.len(),
                reports@.len() == i,
                forall|j: int| 0 <= j < i ==> (#[trigger] reports@[j]).pid == targets@[j],
                forall|j: int|
                    0 <= j < i ==> ((#[trigger] reports@[j]).outcome == KillOutcome::Gone)
                        == !live_pids(*sys).contains(reports@[j].pid),
            decreases targets@.len() - i,
        {
            let pid = targets[i];
            let outcome = kill_process_by_pid(sys, pid);
            reports.push(KillReport { pid, outcome });
            i += 1;
        }
        assert(reports@.map_values(|k: KillReport| k.pid) =~= targets@);
        proof {
            if !self.by_port@.contains_key(port) {
                lemma_kill_targets_unknown_port(self, port);
            }
        }
        reports
    }
}

} // verus!

//! The records that the correlator consumes and produces.

use vstd::prelude::*;
use vstd::string::StringExecFns;
use crate::text::{dec, push_decimal};

verus! {

/// Transport protocol of a socket.
#[derive(Debug, Clone, Copy, PartialEq, Eq, Structural)]
pub enum ProtocolInfo {
    TCP,
    UDP,
}

/// The text of a protocol tag.
pub open spec fn protocol_text(p: ProtocolInfo) -> Seq<char> {
    match p {
        ProtocolInfo::TCP => "TCP"@,
        ProtocolInfo::UDP => "UDP"@,
    }
}

impl ProtocolInfo {
    /// The protocol tag as text, `TCP` or `UDP`.
    pub fn name(&self) -> (r: &'static str)
        ensures
            r@ == protocol_text(*self),
    {
        match self {
            ProtocolInfo::TCP => "TCP",
            ProtocolInfo::UDP => "UDP",
        }
    }
}

/// The actions offered on a chosen entry.
#[derive(Debug, Clone, Copy, PartialEq, Eq, Structural)]
pub enum Choices {
    Kill,
    ViewDetails,
}

/// The label under which an action is shown.
pub open spec fn choice_text(c: Choices) -> Seq<char> {
    match c {
        Choices::Kill => "Kill"@,
        Choices::ViewDetails => "View Details"@,
    }
}

impl Choices {
    /// The label shown for this action in the menu.
    pub fn label(&self) -> (r: &'static str)
        ensures
            r@ == choice_text(*self),
    {
        match self {
            Choices::Kill => "Kill",
            Choices::ViewDetails => "View Details",
        }
    }
}

/// The action menu, in the order in which it is shown.
pub fn create_choices_vec() -> (r: Vec<Choices>)
    ensures
        r@ == seq![Choices::Kill, Choices::ViewDetails],
{
    let mut v: Vec<Choices> = Vec::new();
    v.push(Choices::Kill);
    v.push(Choices::ViewDetails);
    v
}

/// What a socket reports about its protocol: a TCP socket carries its
/// connection state, a UDP socket has none.
#[derive(Debug, Clone)]
pub enum SocketKind {
    Tcp(String),
    Udp,
}

/// One row of the socket table.
#[derive(Debug, Clone)]
pub struct SocketRecord {
    pub local_port: u16,
    pub associated_pids: Vec<u32>,
    pub kind: SocketKind,
}

/// The state shown for sockets that have no connection state.
pub open spec fn no_state() -> Seq<char> {
    "N/A"@
}

/// The protocol tag of a socket kind.
pub open spec fn kind_protocol(k: SocketKind) -> ProtocolInfo {
    match k {
        SocketKind::Tcp(_) => ProtocolInfo::TCP,
        SocketKind::Udp => ProtocolInfo::UDP,
    }
}

/// The connection state of a socket kind: the reported one for TCP, the
/// fixed `N/A` for UDP.
pub open spec fn kind_state(k: SocketKind) -> Seq<char> {
    match k {
        SocketKind::Tcp(s) => s@,
        SocketKind::Udp => no_state(),
    }
}

/// One socket joined with one of its owning processes.
#[derive(Debug, Clone)]
pub struct PortInfo {
    pub port_number: u16,
    pub pid: u32,
    pub process_name: String,
    pub protocol: ProtocolInfo,
    pub port_status: String,
}

/// The abstract value of a `PortInfo`.
pub struct PortEntryView {
    pub port: u16,
    pub pid: u32,
    pub name: Seq<char>,
    pub protocol: ProtocolInfo,
    pub state: Seq<char>,
}

impl View for PortInfo {
    type V = PortEntryView;

    open spec fn view(&self) -> PortEntryView {
        PortEntryView {
            port: self.port_number,
            pid: self.pid,
            name: self.process_name@,
            protocol: self.protocol,
            state: self.port_status@,
        }
    }
}

/// The entry that joins `socket` with the process `pid` named `name`.
pub open spec fn entry_for(socket: SocketRecord, pid: u32, name: Seq<char>) -> PortEntryView {
    PortEntryView {
        port: socket.local_port,
        pid,
        name,
        protocol: kind_protocol(socket.kind),
        state: kind_state(socket.kind),
    }
}

/// The one-line summary of an entry:
/// `pid:port -- name Status: state -- Protocol: proto`.
pub open spec fn summary_text(e: PortEntryView) -> Seq<char> {
    dec(e.pid as nat) + ":"@ + dec(e.port as nat) + " -- "@ + e.name + " Status: "@ + e.state
        + " -- Protocol: "@ + protocol_text(e.protocol)
}

impl PortInfo {
    /// Builds the entry for one socket and one owning process.
    pub fn from_socket(socket: &SocketRecord, pid: u32, name: String) -> (r: PortInfo)
        ensures
            r@ == entry_for(*socket, pid, name@),
    {
        let (protocol, port_status) = match &socket.kind {
            SocketKind::Tcp(state) => (ProtocolInfo::TCP, state.clone()),
            SocketKind::Udp => (ProtocolInfo::UDP, String::from_str("N/A")),
        };
        PortInfo { port_number: socket.local_port, pid, process_name: name, protocol, port_status }
    }

    /// A copy of the entry.
    pub fn duplicate(&self) -> (r: PortInfo)
        ensures
            r@ == self@,
    {
        PortInfo {
            port_number: self.port_number,
            pid: self.pid,
            process_name: self.process_name.clone(),
            protocol: self.protocol,
            port_status: self.port_status.clone(),
        }
    }

    /// The line under which the entry is listed for selection.
    pub fn display_line(&self) -> (r: String)
        ensures
            r@ == summary_text(self@),
    {
        let mut out = String::new();
        push_decimal(&mut out, self.pid as u64);
        out.append(":");
        push_decimal(&mut out, self.port_number as u64);
        out.append(" -- ");
        out.append(self.process_name.as_str());
        out.append(" Status: ");
        out.append(self.port_status.as_str());
        out.append(" -- Protocol: ");
        out.append(self.protocol.name());
        proof {
            assert(out@ =~= summary_text(self@));
        }
        out
    }

    /// The question asked when the action menu is shown for this entry.
    pub fn action_prompt(&self) -> (r: String)
        ensures
            r@ == "What would you like to do with "@ + self.process_name@ + ":"@ + dec(
                self.port_number as nat,
            ) + "?"@,
    {
        let mut out = String::from_str("What would you like to do with ");
        out.append(self.process_name.as_str());
        out.append(":");
        push_decimal(&mut out, self.port_number as u64);
        out.append("?");
        out
    }
}

} // verus!

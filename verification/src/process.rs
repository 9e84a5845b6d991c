//! Core domain models that flow through the rest of the library.

use vstd::prelude::*;
use vstd::string::StringExecFns;

use crate::text::{dec, decimal};

pub mod enrich;

verus! {

/// The network-layer protocol a process is bound to.
#[derive(Debug, Clone, Copy, PartialEq, Eq, Structural)]
pub enum Protocol {
    Tcp,
    Udp,
}

impl Protocol {
    /// The lower-case name of the protocol, as it stands in JSON output.
    pub open spec fn spec_name(self) -> Seq<char> {
        match self {
            Protocol::Tcp => "tcp"@,
            Protocol::Udp => "udp"@,
        }
    }

    /// The lower-case name of the protocol, as it stands in JSON output.
    pub fn name(self) -> (r: &'static str)
        ensures
            r@ == self.spec_name(),
    {
        match self {
            Protocol::Tcp => "tcp",
            Protocol::Udp => "udp",
        }
    }
}

/// The text inside an optional string.
pub open spec fn opt_text(o: Option<String>) -> Option<Seq<char>> {
    match o {
        Some(s) => Some(s@),
        None => None,
    }
}

/// A copy of an optional string.
pub fn clone_text(o: &Option<String>) -> (r: Option<String>)
    ensures
        r == *o,
{
    match o {
        Some(s) => Some(s.clone()),
        None => None,
    }
}

/// Metadata describing a single process occupying a port.
///
/// Every field except the identifier and the name is optional, because not all
/// platforms can report them for every process.
#[derive(Debug, PartialEq, Eq)]
pub struct ProcessInfo {
    /// Operating-system process identifier.
    pub pid: u32,
    /// Short, human-friendly process name (e.g. `node`).
    pub name: String,
    /// Full command line with arguments, if known.
    pub command: Option<String>,
    /// Name of the process owner, if known.
    pub user: Option<String>,
    /// Process uptime in whole seconds, if known.
    pub uptime_secs: Option<u64>,
    /// Current working directory of the process, if known.
    pub cwd: Option<String>,
}

/// What a [`ProcessInfo`] holds, as mathematical text.
#[verifier::ext_equal]
pub struct ProcessInfoView {
    pub pid: u32,
    pub name: Seq<char>,
    pub command: Option<Seq<char>>,
    pub user: Option<Seq<char>>,
    pub uptime_secs: Option<u64>,
    pub cwd: Option<Seq<char>>,
}

impl View for ProcessInfo {
    type V = ProcessInfoView;

    open spec fn view(&self) -> ProcessInfoView {
        ProcessInfoView {
            pid: self.pid,
            name: self.name@,
            command: opt_text(self.command),
            user: opt_text(self.user),
            uptime_secs: self.uptime_secs,
            cwd: opt_text(self.cwd),
        }
    }
}

impl Clone for ProcessInfo {
    fn clone(&self) -> (r: ProcessInfo)
        ensures
            r == *self,
    {
        ProcessInfo {
            pid: self.pid,
            name: self.name.clone(),
            command: clone_text(&self.command),
            user: clone_text(&self.user),
            uptime_secs: self.uptime_secs,
            cwd: clone_text(&self.cwd),
        }
    }
}

/// The views of a list of processes.
pub open spec fn infos(processes: Seq<ProcessInfo>) -> Seq<ProcessInfoView> {
    processes.map_values(|p: ProcessInfo| p@)
}

impl ProcessInfoView {
    /// A process of which only the identifier and the name are known.
    pub open spec fn bare(pid: u32, name: Seq<char>) -> ProcessInfoView {
        ProcessInfoView { pid, name, command: None, user: None, uptime_secs: None, cwd: None }
    }
}

impl ProcessInfo {
    /// A process of which only the identifier and the name are known.
    pub fn bare(pid: u32, name: String) -> (r: ProcessInfo)
        ensures
            r@ == ProcessInfoView::bare(pid, name@),
    {
        ProcessInfo { pid, name, command: None, user: None, uptime_secs: None, cwd: None }
    }
}

/// What stands for the name of a process that is not known yet.
pub open spec fn placeholder(pid: u32) -> Seq<char> {
    "pid-"@ + dec(pid as nat)
}

/// What stands for the name of a process that is not known yet.
pub fn placeholder_name(pid: u32) -> (out: String)
    ensures
        out@ == placeholder(pid),
{
    let mut out = String::new();
    out.append("pid-");
    out.append(decimal(pid as u64).as_str());
    out
}

/// A single bound port, along with the process occupying it.
#[derive(Debug, Clone, PartialEq, Eq)]
pub struct PortInfo {
    /// The bound port number.
    pub port: u16,
    /// Which protocol family binds this port.
    pub protocol: Protocol,
    /// The process occupying the port, if one could be identified.
    pub process: Option<ProcessInfo>,
}

impl PortInfo {
    /// A port that is bound, with no known owner.
    pub fn occupied_unknown(port: u16, protocol: Protocol) -> (r: PortInfo)
        ensures
            r == (PortInfo { port, protocol, process: None }),
    {
        PortInfo { port, protocol, process: None }
    }
}

} // verus!

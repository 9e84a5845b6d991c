//! What the renderers are given: plain data about ports and processes.

use vstd::prelude::*;
use vstd::std_specs::convert::FromSpecImpl;

use crate::process::{clone_text, infos, opt_text, ProcessInfo, ProcessInfoView, Protocol};

verus! {

/// The signal that was, or would have been, sent to a process.
#[derive(Debug, Clone, Copy, PartialEq, Eq, Structural)]
pub enum SignalKind {
    Sigterm,
    Sigkill,
}

impl SignalKind {
    /// The name that people and programs see.
    pub open spec fn spec_name(self) -> Seq<char> {
        match self {
            SignalKind::Sigterm => "SIGTERM"@,
            SignalKind::Sigkill => "SIGKILL"@,
        }
    }

    /// The first signal of a kill, with force or without.
    pub open spec fn spec_from_force(force: bool) -> SignalKind {
        if force {
            SignalKind::Sigkill
        } else {
            SignalKind::Sigterm
        }
    }

    /// The name that people and programs see.
    pub fn name(self) -> (r: &'static str)
        ensures
            r@ == self.spec_name(),
    {
        match self {
            SignalKind::Sigterm => "SIGTERM",
            SignalKind::Sigkill => "SIGKILL",
        }
    }

    /// The first signal of a kill, with force or without.
    pub fn from_force(force: bool) -> (r: SignalKind)
        ensures
            r == SignalKind::spec_from_force(force),
    {
        if force {
            SignalKind::Sigkill
        } else {
            SignalKind::Sigterm
        }
    }

    /// The name that people and programs see, as text of its own.
    pub fn to_string(&self) -> (out: String)
        ensures
            out@ == self.spec_name(),
    {
        self.name().to_string()
    }
}

/// What happened to one process.
#[derive(Debug, Clone, Copy, PartialEq, Eq, Structural)]
pub enum ProcessStatus {
    /// Nothing was done, nor simulated.
    Info,
    /// The signal of the row is what would be sent.
    DryRun,
    /// `SIGTERM` ended the process.
    Terminated,
    /// `SIGKILL` ended the process.
    Killed,
    /// The process could not be signalled, or did not go.
    Failed,
}

impl ProcessStatus {
    /// The name that programs see.
    pub open spec fn spec_name(self) -> Seq<char> {
        match self {
            ProcessStatus::Info => "info"@,
            ProcessStatus::DryRun => "dry_run"@,
            ProcessStatus::Terminated => "terminated"@,
            ProcessStatus::Killed => "killed"@,
            ProcessStatus::Failed => "failed"@,
        }
    }

    /// The name that programs see.
    pub fn name(self) -> (r: &'static str)
        ensures
            r@ == self.spec_name(),
    {
        match self {
            ProcessStatus::Info => "info",
            ProcessStatus::DryRun => "dry_run",
            ProcessStatus::Terminated => "terminated",
            ProcessStatus::Killed => "killed",
            ProcessStatus::Failed => "failed",
        }
    }
}

/// One process that occupies a port, and what happened to it.
#[derive(Debug, PartialEq, Eq)]
pub struct ProcessResult {
    pub pid: u32,
    pub name: String,
    pub command: Option<String>,
    pub user: Option<String>,
    pub uptime_secs: Option<u64>,
    pub cwd: Option<String>,
    /// What happened to the process.
    pub status: ProcessStatus,
    /// The signal that was, or would be, used.
    pub signal: Option<SignalKind>,
    /// Why the process could not be ended, if it could not.
    pub error: Option<String>,
}

/// What a [`ProcessResult`] holds, as mathematical text.
#[verifier::ext_equal]
pub struct ProcessResultView {
    pub pid: u32,
    pub name: Seq<char>,
    pub command: Option<Seq<char>>,
    pub user: Option<Seq<char>>,
    pub uptime_secs: Option<u64>,
    pub cwd: Option<Seq<char>>,
    pub status: ProcessStatus,
    pub signal: Option<SignalKind>,
    pub error: Option<Seq<char>>,
}

impl View for ProcessResult {
    type V = ProcessResultView;

    open spec fn view(&self) -> ProcessResultView {
        ProcessResultView {
            pid: self.pid,
            name: self.name@,
            command: opt_text(self.command),
            user: opt_text(self.user),
            uptime_secs: self.uptime_secs,
            cwd: opt_text(self.cwd),
            status: self.status,
            signal: self.signal,
            error: opt_text(self.error),
        }
    }
}

impl ProcessResultView {
    /// The row of a process to which nothing was done.
    pub open spec fn of(p: ProcessInfoView) -> ProcessResultView {
        ProcessResultView {
            pid: p.pid,
            name: p.name,
            command: p.command,
            user: p.user,
            uptime_secs: p.uptime_secs,
            cwd: p.cwd,
            status: ProcessStatus::Info,
            signal: None,
            error: None,
        }
    }

    /// The process that a row is about.
    pub open spec fn info(self) -> ProcessInfoView {
        ProcessInfoView {
            pid: self.pid,
            name: self.name,
            command: self.command,
            user: self.user,
            uptime_secs: self.uptime_secs,
            cwd: self.cwd,
        }
    }
}

impl Clone for ProcessResult {
    fn clone(&self) -> (r: ProcessResult)
        ensures
            r == *self,
    {
        ProcessResult {
            pid: self.pid,
            name: self.name.clone(),
            command: clone_text(&self.command),
            user: clone_text(&self.user),
            uptime_secs: self.uptime_secs,
            cwd: clone_text(&self.cwd),
            status: self.status,
            signal: self.signal,
            error: clone_text(&self.error),
        }
    }
}

impl From<&ProcessInfo> for ProcessResult {
    fn from(process: &ProcessInfo) -> (r: ProcessResult) {
        ProcessResult {
            pid: process.pid,
            name: process.name.clone(),
            command: clone_text(&process.command),
            user: clone_text(&process.user),
            uptime_secs: process.uptime_secs,
            cwd: clone_text(&process.cwd),
            status: ProcessStatus::Info,
            signal: None,
            error: None,
        }
    }
}

impl FromSpecImpl<&ProcessInfo> for ProcessResult {
    open spec fn obeys_from_spec() -> bool {
        true
    }

    open spec fn from_spec(process: &ProcessInfo) -> ProcessResult {
        ProcessResult {
            pid: process.pid,
            name: process.name,
            command: process.command,
            user: process.user,
            uptime_secs: process.uptime_secs,
            cwd: process.cwd,
            status: ProcessStatus::Info,
            signal: None,
            error: None,
        }
    }
}

impl ProcessResult {
    /// The process that the row is about.
    pub fn to_process_info(&self) -> (r: ProcessInfo)
        ensures
            r@ == self@.info(),
    {
        ProcessInfo {
            pid: self.pid,
            name: self.name.clone(),
            command: clone_text(&self.command),
            user: clone_text(&self.user),
            uptime_secs: self.uptime_secs,
            cwd: clone_text(&self.cwd),
        }
    }
}

/// A row made of a process gives that process back.
pub proof fn law_row_keeps_process(p: ProcessInfoView)
    ensures
        ProcessResultView::of(p).info() == p,
{
}

/// One requested port.
#[derive(Debug, Clone, PartialEq, Eq)]
pub struct PortResult {
    pub port: u16,
    pub protocol: Protocol,
    /// Whether the port is free; unknown when the port could not be inspected.
    pub free: Option<bool>,
    /// Why the port could not be inspected, if it could not.
    pub error: Option<String>,
    /// One row per process that occupies the port.
    pub processes: Vec<ProcessResult>,
}

/// What a [`PortResult`] holds, as mathematical text.
#[verifier::ext_equal]
pub struct PortResultView {
    pub port: u16,
    pub protocol: Protocol,
    pub free: Option<bool>,
    pub error: Option<Seq<char>>,
    pub processes: Seq<ProcessResultView>,
}

/// The views of a list of rows.
pub open spec fn rows(processes: Seq<ProcessResult>) -> Seq<ProcessResultView> {
    processes.map_values(|p: ProcessResult| p@)
}

/// The views of a list of ports.
pub open spec fn ports(results: Seq<PortResult>) -> Seq<PortResultView> {
    results.map_values(|p: PortResult| p@)
}

impl View for PortResult {
    type V = PortResultView;

    open spec fn view(&self) -> PortResultView {
        PortResultView {
            port: self.port,
            protocol: self.protocol,
            free: self.free,
            error: opt_text(self.error),
            processes: rows(self.processes@),
        }
    }
}

impl PortResultView {
    /// A port to which nothing is bound.
    pub open spec fn nothing_bound(port: u16) -> PortResultView {
        PortResultView {
            port,
            protocol: Protocol::Tcp,
            free: Some(true),
            error: None,
            processes: Seq::empty(),
        }
    }

    /// A port that the given processes occupy.
    pub open spec fn occupied(port: u16, processes: Seq<ProcessInfoView>) -> PortResultView {
        PortResultView {
            port,
            protocol: Protocol::Tcp,
            free: Some(false),
            error: None,
            processes: processes.map_values(|p: ProcessInfoView| ProcessResultView::of(p)),
        }
    }

    /// A port that could not be inspected.
    pub open spec fn inspection_error(
        port: u16,
        protocol: Protocol,
        message: Seq<char>,
    ) -> PortResultView {
        PortResultView {
            port,
            protocol,
            free: None,
            error: Some(message),
            processes: Seq::empty(),
        }
    }

    pub open spec fn is_free(self) -> bool {
        self.free == Some(true)
    }

    pub open spec fn is_occupied(self) -> bool {
        self.free == Some(false)
    }

    pub open spec fn is_error(self) -> bool {
        self.error is Some
    }
}

impl PortResult {
    /// A port to which nothing is bound.
    pub fn free(port: u16) -> (r: PortResult)
        ensures
            r@ == PortResultView::nothing_bound(port),
    {
        PortResult {
            port,
            protocol: Protocol::Tcp,
            free: Some(true),
            error: None,
            processes: Vec::new(),
        }
    }

    /// A port that the given processes occupy.
    pub fn occupied(port: u16, processes: Vec<ProcessInfo>) -> (r: PortResult)
        ensures
            r@ == PortResultView::occupied(port, infos(processes@)),
    {
        let mut rows: Vec<ProcessResult> = Vec::new();
        let mut i: usize = 0;
        while i < processes.len()
            invariant
                i <= processes@.len(),
                rows@.len() == i,
                forall|j: int|
                    0 <= j < i ==> (#[trigger] rows@[j])@ == ProcessResultView::of(
                        processes@[j]@,
                    ),
            decreases processes@.len() - i,
        {
            rows.push(ProcessResult::from(&processes[i]));
            i += 1;
        }
        PortResult { port, protocol: Protocol::Tcp, free: Some(false), error: None, processes: rows }
    }

    /// A port that could not be inspected.
    pub fn inspection_error(port: u16, protocol: Protocol, message: &str) -> (r: PortResult)
        ensures
            r@ == PortResultView::inspection_error(port, protocol, message@),
    {
        PortResult {
            port,
            protocol,
            free: None,
            error: Some(message.to_string()),
            processes: Vec::new(),
        }
    }

    /// Whether nothing is bound to the port.
    pub fn is_free(&self) -> (r: bool)
        ensures
            r == self@.is_free(),
    {
        matches!(self.free, Some(true))
    }

    /// Whether something is bound to the port.
    pub fn is_occupied(&self) -> (r: bool)
        ensures
            r == self@.is_occupied(),
    {
        matches!(self.free, Some(false))
    }

    /// Whether the port could not be inspected.
    pub fn is_error(&self) -> (r: bool)
        ensures
            r == self@.is_error(),
    {
        self.error.is_some()
    }
}

/// What the current run was asked to do.
#[derive(Debug, Clone, Copy, PartialEq, Eq, Structural)]
pub enum RunMode {
    /// Only to look.
    Inspect,
    /// To say what would be done.
    DryRun,
    /// To end processes; done.
    Kill,
    /// To end processes, and is about to ask whether to go on.
    Confirming,
    /// To end processes, but was told not to go on.
    Aborted,
}

impl Default for RunMode {
    fn default() -> (r: RunMode)
        ensures
            r == RunMode::Inspect,
    {
        RunMode::Inspect
    }
}

/// How the human view is drawn.
#[derive(Debug, Clone, Copy, PartialEq, Eq, Structural)]
pub struct TableOptions {
    pub mode: RunMode,
}

impl TableOptions {
    /// Whether there is a column for what happened to each process: only when
    /// something was done, or simulated.
    pub open spec fn status_shown(self) -> bool {
        self.mode == RunMode::DryRun || self.mode == RunMode::Kill
    }

    pub fn new(mode: RunMode) -> (r: TableOptions)
        ensures
            r == (TableOptions { mode }),
    {
        TableOptions { mode }
    }

    /// Whether there is a column for what happened to each process.
    pub fn show_status(&self) -> (r: bool)
        ensures
            r == self.status_shown(),
    {
        matches!(self.mode, RunMode::DryRun | RunMode::Kill)
    }
}

impl Default for TableOptions {
    fn default() -> (r: TableOptions)
        ensures
            r == (TableOptions { mode: RunMode::Inspect }),
    {
        TableOptions { mode: RunMode::Inspect }
    }
}

} // verus!

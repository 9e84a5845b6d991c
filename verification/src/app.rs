//! One run, from the command line to the exit code.
//!
//! A [`Session`] decides everything and performs nothing: it says what is to be
//! done next (inspect a port, show the results, ask the user, send a signal) and
//! is told how that went.
//!
//! 1. The ports are resolved.
//! 2. Each port is inspected. Only if one is occupied is a snapshot of the system
//!    taken, and what is known of the processes completed from it.
//! 3. What was found, and what was asked for, decide what follows: showing the
//!    results, showing what would be done, or ending processes, after the user was
//!    asked.
//! 4. Each process is ended in turn, and what came of it is recorded in its row. A
//!    process that holds several of the ports is sent each signal once: at its next
//!    port the attempt goes on where it stood.

use vstd::prelude::*;
use vstd::string::StringExecFns;

use crate::error::{AppError, AppErrorView};
use crate::kill::signal::{Signal, SignalSender};
use crate::kill::{
    result_view, KillConfig, KillOutcome, KillOutcomeView, KillReply, KillRequest,
};
use crate::platform::PlatformProvider;
use crate::process::enrich::{all_enriched, ProcessEnricher, ProcessFactsView};
use crate::process::{infos, ProcessInfo, ProcessInfoView, Protocol};
use crate::render::json::{json_text, render_json, report};
use crate::render::table::{document, drawn, render_table};
use crate::render::types::{
    ports, PortResult, PortResultView, ProcessResult, ProcessResultView, ProcessStatus, RunMode,
    SignalKind, TableOptions,
};
use crate::text::{chars_of, dec, decimal, lowered, same_text, to_lower, trim, trimmed};

pub mod decisions;
pub mod exit;
pub mod laws;
pub mod session;

pub use crate::app::session::{run, Reply, Request, Session};

verus! {

// ---------------------------------------------------------------------------
// Inspection
// ---------------------------------------------------------------------------

/// What the platform answers about one port.
pub type Answer = Result<Vec<ProcessInfo>, AppError>;

/// What the platform answers about one port, as mathematical text.
pub type AnswerView = Result<Seq<ProcessInfoView>, AppErrorView>;

pub open spec fn answer_view(answer: Answer) -> AnswerView {
    match answer {
        Ok(processes) => Ok(infos(processes@)),
        Err(e) => Err(e@),
    }
}

pub open spec fn answer_views(answers: Seq<Answer>) -> Seq<AnswerView> {
    answers.map_values(|a: Answer| answer_view(a))
}

/// Whether the answer names processes.
pub open spec fn names_processes(answer: AnswerView) -> bool {
    answer matches Ok(processes) && processes.len() > 0
}

/// Whether one of the answers names processes.
pub open spec fn any_names_processes(answers: Seq<AnswerView>) -> bool {
    exists|i: int| 0 <= i < answers.len() && names_processes(#[trigger] answers[i])
}

/// What is shown of a port, given what the platform answered and a snapshot of the
/// system. What could not be inspected is an error of that port alone.
pub open spec fn port_result(
    port: u16,
    answer: AnswerView,
    facts: Seq<ProcessFactsView>,
) -> PortResultView {
    match answer {
        Err(e) => PortResultView::inspection_error(port, Protocol::Tcp, e.text()),
        Ok(processes) => if processes.len() == 0 {
            PortResultView::nothing_bound(port)
        } else {
            PortResultView::occupied(port, all_enriched(facts, processes))
        },
    }
}

/// What is shown of the ports, one by one.
pub open spec fn port_results(
    ports: Seq<u16>,
    answers: Seq<AnswerView>,
    facts: Seq<ProcessFactsView>,
) -> Seq<PortResultView> {
    Seq::new(ports.len(), |i: int| port_result(ports[i], answers[i], facts))
}

fn names_any(answer: &Answer) -> (r: bool)
    ensures
        r == names_processes(answer_view(*answer)),
{
    match answer {
        Ok(processes) => processes.len() > 0,
        Err(_) => false,
    }
}

/// Whether one of the answers names processes.
pub(crate) fn snapshot_needed(answers: &Vec<Answer>) -> (r: bool)
    ensures
        r == any_names_processes(answer_views(answers@)),
{
    let ghost all = answer_views(answers@);
    let mut i: usize = 0;
    while i < answers.len()
        invariant
            i <= answers@.len(),
            all == answer_views(answers@),
            forall|j: int| 0 <= j < i ==> !names_processes(#[trigger] all[j]),
        decreases answers@.len() - i,
    {
        if names_any(&answers[i]) {
            assert(names_processes(all[i as int]));
            return true;
        }
        i += 1;
    }
    false
}

/// What is shown of the ports, in their order, given what the platform answered
/// about each and a snapshot of the system.
pub fn inspect_ports(
    ports_asked: &Vec<u16>,
    answers: &Vec<Answer>,
    enricher: &ProcessEnricher,
) -> (r: Vec<PortResult>)
    requires
        ports_asked@.len() == answers@.len(),
    ensures
        ports(r@) == port_results(ports_asked@, answer_views(answers@), enricher@),
{
    let mut out: Vec<PortResult> = Vec::new();
    let mut i: usize = 0;
    while i < answers.len()
        invariant
            i <= answers@.len(),
            ports_asked@.len() == answers@.len(),
            out@.len() == i,
            forall|k: int|
                0 <= k < i ==> (#[trigger] out@[k])@ == port_result(
                    ports_asked@[k],
                    answer_view(answers@[k]),
                    enricher@,
                ),
        decreases answers@.len() - i,
    {
        let port = ports_asked[i];
        let result = match &answers[i] {
            Ok(processes) => {
                if processes.len() == 0 {
                    PortResult::free(port)
                } else {
                    PortResult::occupied(port, enricher.enrich_each(processes))
                }
            },
            Err(e) => PortResult::inspection_error(port, Protocol::Tcp, e.to_string().as_str()),
        };
        out.push(result);
        i += 1;
    }
    out
}

// ---------------------------------------------------------------------------
// Rows
// ---------------------------------------------------------------------------

/// A row that says what would be sent.
pub open spec fn stamped_row(row: ProcessResultView, force: bool) -> ProcessResultView {
    ProcessResultView {
        status: ProcessStatus::DryRun,
        signal: Some(SignalKind::spec_from_force(force)),
        ..row
    }
}

/// A port whose rows, if it is occupied, say what would be sent.
pub open spec fn stamped(result: PortResultView, force: bool) -> PortResultView {
    if result.is_occupied() {
        PortResultView {
            processes: result.processes.map_values(|row: ProcessResultView| stamped_row(row, force)),
            ..result
        }
    } else {
        result
    }
}

/// Let the rows of the occupied ports say what would be sent.
pub fn stamp_dry_run(results: &mut Vec<PortResult>, force: bool)
    ensures
        ports(final(results)@) == ports(old(results)@).map_values(
            |result: PortResultView| stamped(result, force),
        ),
{
    let signal = SignalKind::from_force(force);
    let ghost before = results@;
    let mut i: usize = 0;
    while i < results.len()
        invariant
            i <= results@.len(),
            results@.len() == before.len(),
            signal == SignalKind::spec_from_force(force),
            forall|k: int| 0 <= k < i ==> (#[trigger] results@[k])@ == stamped(before[k]@, force),
            forall|k: int| i <= k < before.len() ==> #[trigger] results@[k] == before[k],
        decreases results@.len() - i,
    {
        if results[i].is_occupied() {
            let ghost whole = results@[i as int];
            let mut j: usize = 0;
            while j < results[i].processes.len()
                invariant
                    i < results@.len(),
                    results@.len() == before.len(),
                    signal == SignalKind::spec_from_force(force),
                    whole == before[i as int],
                    forall|k: int|
                        0 <= k < i ==> (#[trigger] results@[k])@ == stamped(before[k]@, force),
                    forall|k: int| i < k < before.len() ==> #[trigger] results@[k] == before[k],
                    results@[i as int].port == whole.port,
                    results@[i as int].protocol == whole.protocol,
                    results@[i as int].free == whole.free,
                    results@[i as int].error == whole.error,
                    results@[i as int].processes@.len() == whole.processes@.len(),
                    j <= whole.processes@.len(),
                    forall|k: int|
                        0 <= k < j ==> (#[trigger] results@[i as int].processes@[k])@
                            == stamped_row(whole.processes@[k]@, force),
                    forall|k: int|
                        j <= k < whole.processes@.len()
                            ==> #[trigger] results@[i as int].processes@[k]
                            == whole.processes@[k],
                decreases whole.processes@.len() - j,
            {
                results[i].processes[j].status = ProcessStatus::DryRun;
                results[i].processes[j].signal = Some(signal);
                j += 1;
            }
            assert(results@[i as int]@ == stamped(before[i as int]@, force));
        }
        i += 1;
    }
}

/// Why a process could not be signalled, in words that name the port.
pub open spec fn kill_error(error: AppErrorView, port: u16, pid: u32) -> Seq<char> {
    if error is AccessDenied {
        "permission denied signalling PID "@ + dec(pid as nat) + " on port "@ + dec(port as nat)
            + "; try running `pk` with sudo"@
    } else {
        error.text()
    }
}

/// Why a process could not be signalled, in words that name the port.
pub fn kill_error_text(err: &AppError, port: u16, pid: u32) -> (out: String)
    ensures
        out@ == kill_error(err@, port, pid),
{
    match err {
        AppError::AccessDenied { .. } => {
            let mut out = String::new();
            out.append("permission denied signalling PID ");
            out.append(decimal(pid as u64).as_str());
            out.append(" on port ");
            out.append(decimal(port as u64).as_str());
            out.append("; try running `pk` with sudo");
            out
        },
        other => other.to_string(),
    }
}

/// A row with what came of the attempt to end its process.
pub open spec fn settled(
    row: ProcessResultView,
    port: u16,
    result: Result<KillOutcomeView, AppErrorView>,
) -> ProcessResultView {
    match result {
        Ok(KillOutcomeView::GracefulSuccess { .. }) => ProcessResultView {
            status: ProcessStatus::Terminated,
            signal: Some(SignalKind::Sigterm),
            ..row
        },
        Ok(KillOutcomeView::ForcefulSuccess { .. }) => ProcessResultView {
            status: ProcessStatus::Killed,
            signal: Some(SignalKind::Sigkill),
            ..row
        },
        Ok(KillOutcomeView::Failed { reason, .. }) => ProcessResultView {
            status: ProcessStatus::Failed,
            error: Some(reason),
            ..row
        },
        Err(e) => ProcessResultView {
            status: ProcessStatus::Failed,
            error: Some(kill_error(e, port, row.pid)),
            ..row
        },
    }
}

/// Record in its row what came of the attempt to end a process.
pub fn settle(row: &mut ProcessResult, port: u16, result: Result<KillOutcome, AppError>)
    ensures
        final(row)@ == settled(old(row)@, port, result_view(result)),
{
    match result {
        Ok(KillOutcome::GracefulSuccess { .. }) => {
            row.status = ProcessStatus::Terminated;
            row.signal = Some(SignalKind::Sigterm);
        },
        Ok(KillOutcome::ForcefulSuccess { .. }) => {
            row.status = ProcessStatus::Killed;
            row.signal = Some(SignalKind::Sigkill);
        },
        Ok(KillOutcome::Failed { reason, .. }) => {
            row.status = ProcessStatus::Failed;
            row.error = Some(reason);
        },
        Err(e) => {
            row.status = ProcessStatus::Failed;
            row.error = Some(kill_error_text(&e, port, row.pid));
        },
    }
}

/// Whether the attempt to end some process failed.
pub open spec fn any_failed(results: Seq<PortResultView>) -> bool {
    exists|i: int, j: int|
        0 <= i < results.len() && 0 <= j < results[i].processes.len()
            && (#[trigger] results[i].processes[j]).status == ProcessStatus::Failed
}

pub(crate) fn has_failed(results: &Vec<PortResult>) -> (r: bool)
    ensures
        r == any_failed(ports(results@)),
{
    let ghost all = ports(results@);
    let mut i: usize = 0;
    while i < results.len()
        invariant
            i <= results@.len(),
            all == ports(results@),
            forall|k: int, j: int|
                0 <= k < i && 0 <= j < all[k].processes.len() ==> (
                #[trigger] all[k].processes[j]).status != ProcessStatus::Failed,
        decreases results@.len() - i,
    {
        let mut j: usize = 0;
        while j < results[i].processes.len()
            invariant
                i < results@.len(),
                all == ports(results@),
                j <= results@[i as int].processes@.len(),
                forall|m: int|
                    0 <= m < j ==> (#[trigger] all[i as int].processes[m]).status
                        != ProcessStatus::Failed,
            decreases results@[i as int].processes@.len() - j,
        {
            if matches!(results[i].processes[j].status, ProcessStatus::Failed) {
                assert(all[i as int].processes[j as int].status == ProcessStatus::Failed);
                return true;
            }
            j += 1;
        }
        i += 1;
    }
    false
}

pub open spec fn all_free(results: Seq<PortResultView>) -> bool {
    forall|i: int| 0 <= i < results.len() ==> (#[trigger] results[i]).is_free()
}

pub open spec fn all_errors(results: Seq<PortResultView>) -> bool {
    forall|i: int| 0 <= i < results.len() ==> (#[trigger] results[i]).is_error()
}

pub(crate) fn are_all_free(results: &Vec<PortResult>) -> (r: bool)
    ensures
        r == all_free(ports(results@)),
{
    let ghost all = ports(results@);
    let mut i: usize = 0;
    while i < results.len()
        invariant
            i <= results@.len(),
            all == ports(results@),
            forall|k: int| 0 <= k < i ==> (#[trigger] all[k]).is_free(),
        decreases results@.len() - i,
    {
        if !results[i].is_free() {
            assert(!all[i as int].is_free());
            return false;
        }
        i += 1;
    }
    true
}

pub(crate) fn are_all_errors(results: &Vec<PortResult>) -> (r: bool)
    ensures
        r == all_errors(ports(results@)),
{
    let ghost all = ports(results@);
    let mut i: usize = 0;
    while i < results.len()
        invariant
            i <= results@.len(),
            all == ports(results@),
            forall|k: int| 0 <= k < i ==> (#[trigger] all[k]).is_error(),
        decreases results@.len() - i,
    {
        if !results[i].is_error() {
            assert(!all[i as int].is_error());
            return false;
        }
        i += 1;
    }
    true
}

/// The first row at or after row `j` of port `i` whose port is occupied.
pub open spec fn next_row(results: Seq<PortResultView>, i: int, j: int) -> Option<(int, int)>
    decreases results.len() - i,
{
    if i >= results.len() {
        None
    } else if results[i].is_occupied() && j < results[i].processes.len() {
        Some((i, j))
    } else {
        next_row(results, i + 1, 0)
    }
}

pub(crate) fn find_row(results: &Vec<PortResult>, i: usize, j: usize) -> (r: Option<(usize, usize)>)
    ensures
        match r {
            Some((a, b)) => next_row(ports(results@), i as int, j as int) == Some(
                (a as int, b as int),
            ),
            None => next_row(ports(results@), i as int, j as int) is None,
        },
{
    let ghost all = ports(results@);
    let mut a: usize = i;
    let mut b: usize = j;
    while a < results.len()
        invariant
            all == ports(results@),
            next_row(all, i as int, j as int) == next_row(all, a as int, b as int),
        decreases results@.len() - a,
    {
        if results[a].is_occupied() && b < results[a].processes.len() {
            return Some((a, b));
        }
        a += 1;
        b = 0;
    }
    None
}

/// The last signal that has reached a process, given which signals have reached which
/// processes, in order.
pub open spec fn last_signal(reached: Seq<(u32, Signal)>, pid: u32) -> Option<Signal>
    decreases reached.len(),
{
    if reached.len() == 0 {
        None
    } else if reached.last().0 == pid {
        Some(reached.last().1)
    } else {
        last_signal(reached.drop_last(), pid)
    }
}

pub(crate) fn find_signal(reached: &Vec<(u32, Signal)>, pid: u32) -> (r: Option<Signal>)
    ensures
        r == last_signal(reached@, pid),
{
    let mut n: usize = reached.len();
    assert(reached@.take(n as int) =~= reached@);
    while n > 0
        invariant
            n <= reached@.len(),
            last_signal(reached@, pid) == last_signal(reached@.take(n as int), pid),
        decreases n,
    {
        assert(reached@.take(n as int).drop_last() =~= reached@.take(n - 1));
        if reached[n - 1].0 == pid {
            return Some(reached[n - 1].1);
        }
        n -= 1;
    }
    None
}

// ---------------------------------------------------------------------------
// Confirmation
// ---------------------------------------------------------------------------

/// Whether an answer says to go on: `y` or `yes`, in any case, with white space
/// around it or not.
pub open spec fn says_yes(answer: Seq<char>) -> bool {
    let word = lowered(trim(answer));
    word == "y"@ || word == "yes"@
}

/// Whether to go on, given the line that the user answered with. Without an answer
/// it is no.
pub fn prompt_confirm(line: Option<&str>) -> (r: bool)
    ensures
        r == match line {
            Some(answer) => says_yes(answer@),
            None => false,
        },
{
    match line {
        None => false,
        Some(answer) => {
            let chars = chars_of(answer);
            let word = trimmed(chars.as_slice());
            let mut low: Vec<char> = Vec::new();
            let mut i: usize = 0;
            while i < word.len()
                invariant
                    i <= word@.len(),
                    low@ == lowered(word@.take(i as int)),
                decreases word@.len() - i,
            {
                low.push(to_lower(word[i]));
                assert(word@.take(i + 1) == word@.take(i as int).push(word@[i as int]));
                i += 1;
            }
            assert(word@.take(word@.len() as int) == word@);
            same_text(low.as_slice(), "y") || same_text(low.as_slice(), "yes")
        },
    }
}

// ---------------------------------------------------------------------------
// Output
// ---------------------------------------------------------------------------

/// Whether `out` is what is written to show the results: the report in JSON, with a
/// line feed at its end, or a drawing of the document.
pub open spec fn shows(
    results: Seq<PortResultView>,
    json: bool,
    mode: RunMode,
    out: Seq<char>,
) -> bool {
    if json {
        out == json_text(report(results)) + "\n"@
    } else {
        drawn(document(results, TableOptions { mode }), out)
    }
}

/// What is written to show the results in the given mode. The mode does not matter
/// to the JSON report, in which each row says what happened to it.
pub fn emit_mode(results: &[PortResult], json: bool, mode: RunMode) -> (out: String)
    ensures
        shows(ports(results@), json, mode, out@),
{
    if json {
        let mut out = render_json(results);
        out.append("\n");
        out
    } else {
        render_table(results, &TableOptions::new(mode))
    }
}

/// What is written to show what was found.
pub fn emit(results: &[PortResult], json: bool) -> (out: String)
    ensures
        shows(ports(results@), json, RunMode::Inspect, out@),
{
    emit_mode(results, json, RunMode::Inspect)
}

// ---------------------------------------------------------------------------
// Serving requests
// ---------------------------------------------------------------------------

/// What a run needs of the system: someone to ask about ports, someone to send
/// signals, and the times of an escalation.
pub struct Runner<'a, P: PlatformProvider + ?Sized, S: SignalSender + ?Sized> {
    pub provider: &'a P,
    pub signals: &'a S,
    pub cfg: KillConfig,
}

impl<'a, P: PlatformProvider + ?Sized, S: SignalSender + ?Sized> Runner<'a, P, S> {
    /// Do what a run wants, if it is for the provider or the sender to do: inspect a
    /// port, send a signal, or look whether a process is gone. Nothing is done for
    /// any other request.
    pub fn serve(&self, request: &Request) -> (r: Option<Reply>)
        ensures
            match *request {
                Request::Inspect { port } => r matches Some(Reply::Inspected(answer))
                    && call_ensures(P::get_processes_on_port, (self.provider, port), answer),
                Request::Kill(KillRequest::Send { pid, signal }) => r matches Some(
                    Reply::Kill(KillReply::Sent(answer)),
                ) && call_ensures(S::send, (self.signals, pid, signal), answer),
                Request::Kill(KillRequest::Probe { port, pid }) => r matches Some(
                    Reply::Kill(KillReply::Probed(answer)),
                ) && call_ensures(
                    P::is_process_gone_from_port,
                    (self.provider, port, pid),
                    answer,
                ),
                _ => r is None,
            },
    {
        match request {
            Request::Inspect { port } => Some(
                Reply::Inspected(self.provider.get_processes_on_port(*port)),
            ),
            Request::Kill(KillRequest::Send { pid, signal }) => Some(
                Reply::Kill(KillReply::Sent(self.signals.send(*pid, *signal))),
            ),
            Request::Kill(KillRequest::Probe { port, pid }) => Some(
                Reply::Kill(
                    KillReply::Probed(self.provider.is_process_gone_from_port(*port, *pid)),
                ),
            ),
            _ => None,
        }
    }
}

} // verus!

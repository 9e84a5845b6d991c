//! What the rest of the library asks of an operating system.
//!
//! Each platform module (`linux`, `macos`, `windows`) takes what the system
//! said, as plain text and bytes, and decides what it means.

use vstd::prelude::*;
use vstd::string::StringExecFns;

use crate::error::{AppError, AppErrorView};
use crate::process::{infos, ProcessInfo, ProcessInfoView};
use crate::text::{chars_of, decode, decoded, text_of, trim, trimmed};

pub mod laws;
pub mod linux;
pub mod macos;
pub mod windows;

verus! {

/// Whether none of the processes is `pid`.
pub open spec fn absent(processes: Seq<ProcessInfo>, pid: u32) -> bool {
    forall|i: int| 0 <= i < processes.len() ==> (#[trigger] processes[i]).pid != pid
}

/// Whether none of the processes is `pid`.
pub fn is_absent(processes: &Vec<ProcessInfo>, pid: u32) -> (r: bool)
    ensures
        r == absent(processes@, pid),
{
    let mut i: usize = 0;
    while i < processes.len()
        invariant
            i <= processes@.len(),
            absent(processes@.take(i as int), pid),
        decreases processes@.len() - i,
    {
        if processes[i].pid == pid {
            return false;
        }
        assert(processes@.take(i + 1) == processes@.take(i as int).push(processes@[i as int]));
        i += 1;
    }
    assert(processes@.take(i as int) == processes@);
    true
}

/// Whether the process `pid` has gone from a port, given whether the port is free and, if
/// it is not, who is found on it.
pub open spec fn gone(
    free: Result<bool, AppError>,
    found: Result<Vec<ProcessInfo>, AppError>,
    pid: u32,
) -> Result<bool, AppError> {
    match free {
        Err(e) => Err(e),
        Ok(true) => Ok(true),
        Ok(false) => match found {
            Err(e) => Err(e),
            Ok(occupants) => Ok(absent(occupants@, pid)),
        },
    }
}

/// Anything that can ask the operating system "who is on this port?" and
/// answer "is it free now?".
pub trait PlatformProvider {
    /// Identify every process that listens on `port` over TCP.
    ///
    /// The list is empty when the port is free, and has several elements when
    /// several processes share the port.
    fn get_processes_on_port(&self, port: u16) -> Result<Vec<ProcessInfo>, AppError>;

    /// Report whether nothing listens on `port`.
    fn is_port_free(&self, port: u16) -> Result<bool, AppError>;

    /// Report whether `target_pid` no longer occupies `port`.
    ///
    /// Unlike [`is_port_free`](PlatformProvider::is_port_free), which is false as
    /// long as any process holds the port, this is about one process: it has gone
    /// when the port is free, and also when the port is held by others only.
    fn is_process_gone_from_port(&self, port: u16, target_pid: u32) -> (r: Result<bool, AppError>)
        default_ensures
            exists|free: Result<bool, AppError>, found: Result<Vec<ProcessInfo>, AppError>|
                #[trigger] call_ensures(Self::is_port_free, (self, port), free) && (free == Ok::<
                    bool,
                    AppError,
                >(false) ==> call_ensures(Self::get_processes_on_port, (self, port), found)) && r
                    == #[trigger] gone(free, found, target_pid),
    {
        let free = self.is_port_free(port);
        let ghost asked = free;
        let ghost none = Err::<Vec<ProcessInfo>, AppError>(AppError::AccessDenied { port });
        assert(call_ensures(Self::is_port_free, (self, port), asked));
        match free {
            Err(e) => {
                assert(Err::<bool, AppError>(e) == gone(asked, none, target_pid));
                Err(e)
            },
            Ok(true) => {
                assert(Ok::<bool, AppError>(true) == gone(asked, none, target_pid));
                Ok(true)
            },
            Ok(false) => {
                let found = self.get_processes_on_port(port);
                let ghost told = gone(asked, found, target_pid);
                match found {
                    Err(e) => Err(e),
                    Ok(occupants) => Ok(is_absent(&occupants, target_pid)),
                }
            },
        }
    }
}

// ---------------------------------------------------------------------------
// Lists of processes
// ---------------------------------------------------------------------------

/// Whether one of the processes is `pid`.
pub open spec fn listed(processes: Seq<ProcessInfoView>, pid: u32) -> bool {
    exists|i: int| 0 <= i < processes.len() && (#[trigger] processes[i]).pid == pid
}

/// The processes, but of those with the same number only the first.
pub open spec fn first_of_each(processes: Seq<ProcessInfoView>) -> Seq<ProcessInfoView>
    decreases processes.len(),
{
    if processes.len() == 0 {
        Seq::empty()
    } else {
        let before = first_of_each(processes.drop_last());
        if listed(before, processes.last().pid) {
            before
        } else {
            before.push(processes.last())
        }
    }
}

/// The processes, but of those with the same number only the first.
pub fn dedup_by_pid(processes: Vec<ProcessInfo>) -> (r: Vec<ProcessInfo>)
    ensures
        infos(r@) == first_of_each(infos(processes@)),
{
    let ghost all = infos(processes@);
    let mut out: Vec<ProcessInfo> = Vec::new();
    let mut i: usize = 0;
    assert(all.take(0) == Seq::<ProcessInfoView>::empty());
    while i < processes.len()
        invariant
            i <= processes@.len(),
            all == infos(processes@),
            infos(out@) == first_of_each(all.take(i as int)),
        decreases processes@.len() - i,
    {
        let ghost before = infos(out@);
        let pid = processes[i].pid;
        proof {
            assert(all.take(i + 1).drop_last() == all.take(i as int));
            assert(all.take(i + 1).last() == all[i as int]);
            if !absent(out@, pid) {
                let k = choose|k: int| 0 <= k < out@.len() && (#[trigger] out@[k]).pid == pid;
                assert(before[k].pid == pid);
            }
            if listed(before, pid) {
                let k = choose|k: int| 0 <= k < before.len() && (#[trigger] before[k]).pid == pid;
                assert(out@[k].pid == pid);
            }
        }
        if is_absent(&out, pid) {
            out.push(processes[i].clone());
            assert(infos(out@) == before.push(all[i as int]));
        }
        i += 1;
    }
    assert(all.take(all.len() as int) == all);
    out
}

proof fn lemma_listed_push(processes: Seq<ProcessInfoView>, p: ProcessInfoView, pid: u32)
    ensures
        listed(processes.push(p), pid) <==> listed(processes, pid) || p.pid == pid,
{
    let longer = processes.push(p);
    if listed(processes, pid) {
        let k = choose|k: int| 0 <= k < processes.len() && (#[trigger] processes[k]).pid == pid;
        assert(longer[k].pid == pid);
    }
    assert(longer[processes.len() as int] == p);
    if listed(longer, pid) && p.pid != pid {
        let k = choose|k: int| 0 <= k < longer.len() && (#[trigger] longer[k]).pid == pid;
        assert(processes[k].pid == pid);
    }
}

/// No number is lost, and none is added.
pub proof fn law_dedup_loses_none(processes: Seq<ProcessInfoView>, pid: u32)
    ensures
        listed(first_of_each(processes), pid) <==> listed(processes, pid),
    decreases processes.len(),
{
    if processes.len() > 0 {
        let front = processes.drop_last();
        law_dedup_loses_none(front, pid);
        lemma_listed_push(front, processes.last(), pid);
        assert(front.push(processes.last()) =~= processes);
        lemma_listed_push(first_of_each(front), processes.last(), pid);
    }
}

/// Each number stands once.
pub proof fn law_dedup_is_distinct(processes: Seq<ProcessInfoView>, i: int, j: int)
    requires
        0 <= i < j < first_of_each(processes).len(),
    ensures
        first_of_each(processes)[i].pid != first_of_each(processes)[j].pid,
    decreases processes.len(),
{
    let before = first_of_each(processes.drop_last());
    if j < before.len() {
        law_dedup_is_distinct(processes.drop_last(), i, j);
    } else {
        assert(!listed(before, processes.last().pid));
        assert(before[i].pid != processes.last().pid);
    }
}

/// What is kept of a number is what came first.
pub proof fn law_dedup_keeps_first(processes: Seq<ProcessInfoView>, i: int)
    requires
        0 <= i < processes.len(),
        !listed(processes.take(i), processes[i].pid),
    ensures
        first_of_each(processes).contains(processes[i]),
    decreases processes.len(),
{
    let front = processes.drop_last();
    let before = first_of_each(front);
    let kept = first_of_each(processes);
    if i < front.len() {
        assert(processes.take(i) =~= front.take(i));
        law_dedup_keeps_first(front, i);
        let k = choose|k: int| 0 <= k < before.len() && before[k] == processes[i];
        assert(kept[k] == processes[i]);
    } else {
        assert(processes.take(i) =~= front);
        law_dedup_loses_none(front, processes[i].pid);
        assert(kept[before.len() as int] == processes[i]);
    }
}

// ---------------------------------------------------------------------------
// Commands of the system
// ---------------------------------------------------------------------------

/// How a command of the system went.
#[derive(Debug, PartialEq, Eq)]
pub enum CommandReply {
    /// It could not be started; with the message of the system.
    NotStarted { detail: String },
    /// It ended with this exit code (none if a signal ended it) and wrote this.
    Ended { code: Option<i32>, stdout: Vec<u8>, stderr: Vec<u8> },
}

/// The error for a command that could not be started.
pub open spec fn not_started(command: Seq<char>, detail: Seq<char>) -> AppErrorView {
    AppErrorView::OsCommandFailed {
        command,
        message: "could not spawn `"@ + command + "`: "@ + detail,
    }
}

/// What a command wrote, as text, unless it failed. If `one_is_empty`, exit code 1
/// means that there was nothing to write.
pub open spec fn command_output(
    command: Seq<char>,
    reply: CommandReply,
    one_is_empty: bool,
) -> Result<Seq<char>, AppErrorView> {
    match reply {
        CommandReply::NotStarted { detail } => Err(not_started(command, detail@)),
        CommandReply::Ended { code, stdout, stderr } => if code == Some(0i32) {
            Ok(decoded(stdout@))
        } else if one_is_empty && code == Some(1i32) {
            Ok(Seq::empty())
        } else {
            Err(AppErrorView::OsCommandFailed { command, message: trim(decoded(stderr@)) })
        },
    }
}

/// What a command wrote, as text, unless it failed.
pub fn output_of(command: &'static str, reply: CommandReply, one_is_empty: bool) -> (r: Result<
    String,
    AppError,
>)
    ensures
        match r {
            Ok(text) => command_output(command@, reply, one_is_empty) == Ok::<
                Seq<char>,
                AppErrorView,
            >(text@),
            Err(e) => command_output(command@, reply, one_is_empty) == Err::<
                Seq<char>,
                AppErrorView,
            >(e@),
        },
{
    match reply {
        CommandReply::NotStarted { detail } => {
            let mut message = String::new();
            message.append("could not spawn `");
            message.append(command);
            message.append("`: ");
            message.append(detail.as_str());
            Err(AppError::OsCommandFailed { command, message })
        },
        CommandReply::Ended { code, stdout, stderr } => {
            if matches!(code, Some(0)) {
                Ok(decode(stdout.as_slice()))
            } else if one_is_empty && matches!(code, Some(1)) {
                Ok(String::new())
            } else {
                let chars = chars_of(decode(stderr.as_slice()).as_str());
                Err(
                    AppError::OsCommandFailed {
                        command,
                        message: text_of(trimmed(chars.as_slice())),
                    },
                )
            }
        },
    }
}

} // verus!

//! Signals, and what the operating system says when one is sent.
//!
//! POSIX systems have real signals; Windows has none, and ends a process at once
//! whichever signal is asked for. Both are hidden behind [`SignalSender`].

use vstd::prelude::*;
use vstd::string::StringExecFns;

use crate::error::{AppError, AppErrorView};
use crate::text::{dec, decimal};

verus! {

/// The strength with which a process is asked to end.
#[derive(Debug, Clone, Copy, PartialEq, Eq, Structural)]
pub enum Signal {
    /// A request to terminate (`SIGTERM`), which the process may ignore.
    Terminate,
    /// Forced termination (`SIGKILL`), which cannot be ignored.
    Kill,
}

/// Anything that can send a signal to a process.
pub trait SignalSender {
    /// Send `signal` to `pid`.
    ///
    /// The result is `Ok` when the signal was accepted, and also when the process
    /// had already gone: there is nothing left to signal.
    fn send(&self, pid: u32, signal: Signal) -> Result<(), AppError>;
}

/// Ask a process to terminate.
pub fn send_sigterm<S: SignalSender + ?Sized>(signals: &S, pid: u32) -> (r: Result<(), AppError>)
    ensures
        call_ensures(S::send, (signals, pid, Signal::Terminate), r),
{
    signals.send(pid, Signal::Terminate)
}

/// Force a process to end.
pub fn send_sigkill<S: SignalSender + ?Sized>(signals: &S, pid: u32) -> (r: Result<(), AppError>)
    ensures
        call_ensures(S::send, (signals, pid, Signal::Kill), r),
{
    signals.send(pid, Signal::Kill)
}

/// The answer to a result, as mathematical text.
pub open spec fn sent_view(r: Result<(), AppError>) -> Result<(), AppErrorView> {
    match r {
        Ok(()) => Ok(()),
        Err(e) => Err(e@),
    }
}

// ---------------------------------------------------------------------------
// POSIX
// ---------------------------------------------------------------------------

/// What a POSIX system answers to a request to signal one process.
#[derive(Debug, PartialEq, Eq)]
pub enum PosixReply {
    /// The signal was delivered.
    Delivered,
    /// There is no such process.
    NoSuchProcess,
    /// The process belongs to another user.
    NotPermitted,
    /// Any other failure, with the message of the system.
    Other { detail: String },
}

/// What can signal one process of a POSIX system.
pub trait PosixKill {
    /// Signal the process with this number. Only a positive number stands for one
    /// process: it is never asked for anything else.
    fn kill(&self, pid: i32, signal: Signal) -> PosixReply
        requires
            pid > 0,
    ;
}

/// Whether a number stands for exactly one process. Zero stands for a whole
/// process group, and what does not fit a signed number would turn into one that
/// stands for many processes.
pub open spec fn single_process(pid: u32) -> bool {
    0 < pid <= i32::MAX
}

/// The error for a number that does not stand for exactly one process.
pub open spec fn bad_pid(pid: u32) -> AppErrorView {
    AppErrorView::Internal {
        message: "refusing to signal PID "@ + dec(pid as nat)
            + ": invalid PID (would target a process group or every process)"@,
    }
}

/// What an answer of the system means to whoever wanted the signal sent.
pub open spec fn delivery(pid: u32, reply: PosixReply) -> Result<(), AppErrorView> {
    match reply {
        PosixReply::Delivered => Ok(()),
        PosixReply::NoSuchProcess => Ok(()),
        PosixReply::NotPermitted => Err(AppErrorView::AccessDenied { port: 0 }),
        PosixReply::Other { detail } => Err(
            AppErrorView::KillFailed {
                message: "could not signal PID "@ + dec(pid as nat) + ": "@ + detail@,
            },
        ),
    }
}

/// The number under which the system knows a process, if it stands for exactly
/// one process.
pub fn signal_target(pid: u32) -> (r: Result<i32, AppError>)
    ensures
        single_process(pid) ==> r == Ok::<i32, AppError>(pid as i32),
        !single_process(pid) ==> (r matches Err(e) && e@ == bad_pid(pid)),
{
    if pid == 0 || pid > 0x7fff_ffff {
        let mut message = String::new();
        message.append("refusing to signal PID ");
        message.append(decimal(pid as u64).as_str());
        message.append(": invalid PID (would target a process group or every process)");
        Err(AppError::internal(message))
    } else {
        Ok(pid as i32)
    }
}

/// What an answer of the system means to whoever wanted the signal sent.
pub fn interpret_reply(pid: u32, reply: PosixReply) -> (r: Result<(), AppError>)
    ensures
        sent_view(r) == delivery(pid, reply),
{
    match reply {
        PosixReply::Delivered => Ok(()),
        PosixReply::NoSuchProcess => Ok(()),
        PosixReply::NotPermitted => Err(AppError::AccessDenied { port: 0 }),
        PosixReply::Other { detail } => {
            let mut message = String::new();
            message.append("could not signal PID ");
            message.append(decimal(pid as u64).as_str());
            message.append(": ");
            message.append(detail.as_str());
            Err(AppError::kill_failed(message))
        },
    }
}

/// The signals of a POSIX system.
pub struct OsSignals<K: PosixKill> {
    pub system: K,
}

impl<K: PosixKill> SignalSender for OsSignals<K> {
    /// Nothing is asked of the system for a number that does not stand for exactly
    /// one process.
    fn send(&self, pid: u32, signal: Signal) -> (r: Result<(), AppError>)
        ensures
            !single_process(pid) ==> sent_view(r) == Err::<(), AppErrorView>(bad_pid(pid)),
            single_process(pid) ==> exists|reply: PosixReply| #[trigger]
                call_ensures(K::kill, (&self.system, pid as i32, signal), reply) && sent_view(r)
                    == delivery(pid, reply),
    {
        match signal_target(pid) {
            Err(e) => Err(e),
            Ok(target) => {
                let reply = self.system.kill(target, signal);
                interpret_reply(pid, reply)
            },
        }
    }
}

// ---------------------------------------------------------------------------
// Windows
// ---------------------------------------------------------------------------

/// What Windows answers to a request to end one process.
#[derive(Debug, PartialEq, Eq)]
pub enum TerminateReply {
    /// There is no such process.
    NoSuchProcess,
    /// There is such a process, but it could not be opened.
    NotOpened,
    /// The process was ended.
    Terminated,
    /// The process could not be ended; with the message of the system.
    Refused { detail: String },
}

/// What can end one process of a Windows system.
pub trait WindowsTerminate {
    fn terminate(&self, pid: u32) -> TerminateReply;
}

/// What an answer of Windows means to whoever wanted the process ended.
pub open spec fn termination(pid: u32, reply: TerminateReply) -> Result<(), AppErrorView> {
    match reply {
        TerminateReply::Terminated => Ok(()),
        TerminateReply::NoSuchProcess => Ok(()),
        TerminateReply::NotOpened => Err(
            AppErrorView::KillFailed {
                message: "could not open PID "@ + dec(pid as nat)
                    + " for termination (is it running / do you have permission?)"@,
            },
        ),
        TerminateReply::Refused { detail } => Err(
            AppErrorView::KillFailed {
                message: "could not terminate PID "@ + dec(pid as nat) + ": "@ + detail@,
            },
        ),
    }
}

/// What an answer of Windows means to whoever wanted the process ended.
pub fn interpret_termination(pid: u32, reply: TerminateReply) -> (r: Result<(), AppError>)
    ensures
        sent_view(r) == termination(pid, reply),
{
    let mut message = String::new();
    match reply {
        TerminateReply::Terminated => {
            return Ok(());
        },
        TerminateReply::NoSuchProcess => {
            return Ok(());
        },
        TerminateReply::NotOpened => {
            message.append("could not open PID ");
            message.append(decimal(pid as u64).as_str());
            message.append(" for termination (is it running / do you have permission?)");
        },
        TerminateReply::Refused { detail } => {
            message.append("could not terminate PID ");
            message.append(decimal(pid as u64).as_str());
            message.append(": ");
            message.append(detail.as_str());
        },
    }
    Err(AppError::kill_failed(message))
}

/// The signals of a Windows system: both end the process at once.
pub struct WindowsSignals<T: WindowsTerminate> {
    pub system: T,
}

impl<T: WindowsTerminate> SignalSender for WindowsSignals<T> {
    fn send(&self, pid: u32, _signal: Signal) -> (r: Result<(), AppError>)
        ensures
            exists|reply: TerminateReply| #[trigger]
                call_ensures(T::terminate, (&self.system, pid), reply) && sent_view(r)
                    == termination(pid, reply),
    {
        let reply = self.system.terminate(pid);
        interpret_termination(pid, reply)
    }
}

/// On every system a process that has already gone counts as signalled: there is
/// nothing left to signal.
pub proof fn law_gone_is_signalled(pid: u32)
    ensures
        delivery(pid, PosixReply::NoSuchProcess) == Ok::<(), AppErrorView>(()),
        termination(pid, TerminateReply::NoSuchProcess) == Ok::<(), AppErrorView>(()),
{
}

} // verus!

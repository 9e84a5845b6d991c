//! The error type of the library.
//!
//! Every error carries a message that is actionable for the user: it states
//! *what* went wrong and, where possible, *what to do about it*.

use vstd::prelude::*;
use vstd::string::StringExecFns;

use crate::text::{dec, decimal};

pub mod laws;

verus! {

/// Everything that can go wrong.
#[derive(Debug, Clone, PartialEq, Eq)]
pub enum AppError {
    /// Ports are 1-65535; anything else is rejected at the boundary.
    InvalidPort { raw: String, reason: String },
    /// The operating system refused to let us inspect the port, or to signal its
    /// owner.
    AccessDenied { port: u16 },
    /// A platform command (e.g. `lsof`, `netstat`) could not be run or failed.
    OsCommandFailed { command: &'static str, message: String },
    /// What a platform produced could not be understood.
    UnparseableOutput { port: u16, reason: String },
    /// A file could not be read for a reason other than access control.
    Io { path: String, source: String },
    /// A call of the operating system returned an unexpected status.
    OsApi { message: String },
    /// A requested kill could not be delivered.
    KillFailed { message: String },
    /// An invariant was violated.
    Internal { message: String },
}

/// What an [`AppError`] says, as mathematical text.
#[verifier::ext_equal]
pub enum AppErrorView {
    InvalidPort { raw: Seq<char>, reason: Seq<char> },
    AccessDenied { port: u16 },
    OsCommandFailed { command: Seq<char>, message: Seq<char> },
    UnparseableOutput { port: u16, reason: Seq<char> },
    Io { path: Seq<char>, source: Seq<char> },
    OsApi { message: Seq<char> },
    KillFailed { message: Seq<char> },
    Internal { message: Seq<char> },
}

impl View for AppError {
    type V = AppErrorView;

    open spec fn view(&self) -> AppErrorView {
        match self {
            AppError::InvalidPort { raw, reason } => AppErrorView::InvalidPort {
                raw: raw@,
                reason: reason@,
            },
            AppError::AccessDenied { port } => AppErrorView::AccessDenied { port: *port },
            AppError::OsCommandFailed { command, message } => AppErrorView::OsCommandFailed {
                command: command@,
                message: message@,
            },
            AppError::UnparseableOutput { port, reason } => AppErrorView::UnparseableOutput {
                port: *port,
                reason: reason@,
            },
            AppError::Io { path, source } => AppErrorView::Io { path: path@, source: source@ },
            AppError::OsApi { message } => AppErrorView::OsApi { message: message@ },
            AppError::KillFailed { message } => AppErrorView::KillFailed { message: message@ },
            AppError::Internal { message } => AppErrorView::Internal { message: message@ },
        }
    }
}

impl AppErrorView {
    /// The message shown to the user.
    pub open spec fn text(self) -> Seq<char> {
        match self {
            AppErrorView::InvalidPort { raw, reason } => "invalid port `"@ + raw + "`: "@ + reason,
            AppErrorView::AccessDenied { port } => "port "@ + dec(port as nat)
                + " requires elevated privileges to inspect or is protected by the system. Try running `pk` with `sudo` (on macOS/Linux)."@,
            AppErrorView::OsCommandFailed { command, message } => "the system command `"@ + command
                + "` failed: "@ + message,
            AppErrorView::UnparseableOutput { port, reason } =>
                "failed to interpret operating-system output for port "@ + dec(port as nat) + ": "@
                + reason,
            AppErrorView::Io { path, source } => "could not read "@ + path + ": "@ + source,
            AppErrorView::OsApi { message } => "operating-system API error: "@ + message,
            AppErrorView::KillFailed { message } => message,
            AppErrorView::Internal { message } => message,
        }
    }
}

impl AppError {
    /// An internal error with the given message.
    pub fn internal(message: String) -> (r: AppError)
        ensures
            r@ == (AppErrorView::Internal { message: message@ }),
    {
        AppError::Internal { message }
    }

    /// A kill that failed with the given message.
    pub fn kill_failed(message: String) -> (r: AppError)
        ensures
            r@ == (AppErrorView::KillFailed { message: message@ }),
    {
        AppError::KillFailed { message }
    }

    /// A read of `path` that failed; `source` is the message of the cause.
    pub fn io(path: &str, source: String) -> (r: AppError)
        ensures
            r@ == (AppErrorView::Io { path: path@, source: source@ }),
    {
        AppError::Io { path: path.to_string(), source }
    }

    /// The message shown to the user.
    pub fn to_string(&self) -> (out: String)
        ensures
            out@ == self@.text(),
    {
        let mut out = String::new();
        match self {
            AppError::InvalidPort { raw, reason } => {
                out.append("invalid port `");
                out.append(raw.as_str());
                out.append("`: ");
                out.append(reason.as_str());
            },
            AppError::AccessDenied { port } => {
                out.append("port ");
                out.append(decimal(*port as u64).as_str());
                out.append(
                    " requires elevated privileges to inspect or is protected by the system. Try running `pk` with `sudo` (on macOS/Linux).",
                );
            },
            AppError::OsCommandFailed { command, message } => {
                out.append("the system command `");
                out.append(command);
                out.append("` failed: ");
                out.append(message.as_str());
            },
            AppError::UnparseableOutput { port, reason } => {
                out.append("failed to interpret operating-system output for port ");
                out.append(decimal(*port as u64).as_str());
                out.append(": ");
                out.append(reason.as_str());
            },
            AppError::Io { path, source } => {
                out.append("could not read ");
                out.append(path.as_str());
                out.append(": ");
                out.append(source.as_str());
            },
            AppError::OsApi { message } => {
                out.append("operating-system API error: ");
                out.append(message.as_str());
            },
            AppError::KillFailed { message } => {
                out.append(message.as_str());
            },
            AppError::Internal { message } => {
                out.append(message.as_str());
            },
        }
        out
    }
}

} // verus!

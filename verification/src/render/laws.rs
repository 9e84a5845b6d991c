//! What the results of a run say.

use vstd::prelude::*;

use crate::process::{ProcessInfoView, Protocol};
use crate::render::types::{
    ports, PortResult, PortResultView, ProcessResult, ProcessResultView, ProcessStatus, SignalKind,
};

verus! {

/// The names of the signals, which differ.
pub proof fn law_signal_names(a: SignalKind, b: SignalKind)
    ensures
        a == SignalKind::Sigterm <==> a.spec_name() == "SIGTERM"@,
        a == SignalKind::Sigkill <==> a.spec_name() == "SIGKILL"@,
        a.spec_name() == b.spec_name() ==> a == b,
        SignalKind::spec_from_force(true) == SignalKind::Sigkill,
        SignalKind::spec_from_force(false) == SignalKind::Sigterm,
{
    reveal_strlit("SIGTERM");
    reveal_strlit("SIGKILL");
    assert("SIGTERM"@[3] == 'T');
    assert("SIGKILL"@[3] == 'K');
}

/// The names of what can happen to a process, which differ.
pub proof fn law_status_names(a: ProcessStatus, b: ProcessStatus)
    ensures
        a == ProcessStatus::Info <==> a.spec_name() == "info"@,
        a == ProcessStatus::DryRun <==> a.spec_name() == "dry_run"@,
        a == ProcessStatus::Terminated <==> a.spec_name() == "terminated"@,
        a == ProcessStatus::Killed <==> a.spec_name() == "killed"@,
        a == ProcessStatus::Failed <==> a.spec_name() == "failed"@,
        a.spec_name() == b.spec_name() ==> a == b,
{
    reveal_strlit("info");
    reveal_strlit("dry_run");
    reveal_strlit("terminated");
    reveal_strlit("killed");
    reveal_strlit("failed");
    assert("info"@.len() == 4);
    assert("dry_run"@.len() == 7);
    assert("terminated"@.len() == 10);
    assert("killed"@.len() == 6 && "killed"@[0] == 'k');
    assert("failed"@.len() == 6 && "failed"@[0] == 'f');
}

/// The names of the protocols, which differ.
pub proof fn law_protocol_names(a: Protocol, b: Protocol)
    ensures
        a == Protocol::Tcp <==> a.spec_name() == "tcp"@,
        a == Protocol::Udp <==> a.spec_name() == "udp"@,
        a.spec_name() == b.spec_name() ==> a == b,
{
    reveal_strlit("tcp");
    reveal_strlit("udp");
    assert("tcp"@[0] == 't');
    assert("udp"@[0] == 'u');
}

/// The row of a process to which nothing was done tells all that is known of the process,
/// and that nothing was done.
pub proof fn law_new_row(p: ProcessInfoView)
    ensures
        ({
            let row = ProcessResultView::of(p);
            &&& row.pid == p.pid
            &&& row.name == p.name
            &&& row.command == p.command
            &&& row.user == p.user
            &&& row.uptime_secs == p.uptime_secs
            &&& row.cwd == p.cwd
            &&& row.status == ProcessStatus::Info
            &&& row.signal is None
            &&& row.error is None
        }),
{
}

/// The process of a row, field by field.
pub proof fn law_row_process(row: ProcessResultView)
    ensures
        ({
            let p = row.info();
            &&& p.pid == row.pid
            &&& p.name == row.name
            &&& p.command == row.command
            &&& p.user == row.user
            &&& p.uptime_secs == row.uptime_secs
            &&& p.cwd == row.cwd
        }),
{
}

/// A port is free, or occupied, or could not be inspected; what is made as one of these is
/// no other.
pub proof fn law_three_kinds_of_ports(
    port: u16,
    processes: Seq<ProcessInfoView>,
    protocol: Protocol,
    message: Seq<char>,
    i: int,
)
    ensures
        ({
            let r = PortResultView::nothing_bound(port);
            &&& r.port == port && r.protocol == Protocol::Tcp
            &&& r.free == Some(true) && r.error is None && r.processes.len() == 0
            &&& r.is_free() && !r.is_occupied() && !r.is_error()
        }),
        ({
            let r = PortResultView::occupied(port, processes);
            &&& r.port == port && r.protocol == Protocol::Tcp
            &&& r.free == Some(false) && r.error is None
            &&& r.processes.len() == processes.len()
            &&& 0 <= i < processes.len() ==> r.processes[i] == ProcessResultView::of(processes[i])
            &&& !r.is_free() && r.is_occupied() && !r.is_error()
        }),
        ({
            let r = PortResultView::inspection_error(port, protocol, message);
            &&& r.port == port && r.protocol == protocol
            &&& r.free is None && r.error == Some(message) && r.processes.len() == 0
            &&& !r.is_free() && !r.is_occupied() && r.is_error()
        }),
{
}

/// The view of a row tells each of its fields.
pub proof fn law_row_view(row: ProcessResult, text: String)
    ensures
        row@.pid == row.pid,
        row@.name == row.name@,
        row.command == Some(text) ==> row@.command == Some(text@),
        row.command is None ==> row@.command is None,
        row.user == Some(text) ==> row@.user == Some(text@),
        row.user is None ==> row@.user is None,
        row@.uptime_secs == row.uptime_secs,
        row.cwd == Some(text) ==> row@.cwd == Some(text@),
        row.cwd is None ==> row@.cwd is None,
        row@.status == row.status,
        row@.signal == row.signal,
        row.error == Some(text) ==> row@.error == Some(text@),
        row.error is None ==> row@.error is None,
{
}

/// The view of a port tells each of its fields, and each of its rows in order.
pub proof fn law_port_view(r: PortResult, text: String, i: int)
    ensures
        r@.port == r.port,
        r@.protocol == r.protocol,
        r@.free == r.free,
        r.error == Some(text) ==> r@.error == Some(text@),
        r.error is None ==> r@.error is None,
        r@.processes.len() == r.processes@.len(),
        0 <= i < r.processes@.len() ==> r@.processes[i] == r.processes@[i]@,
{
}

/// The view of a list of ports tells each of them, in order.
pub proof fn law_ports_view(results: Seq<PortResult>, i: int)
    requires
        0 <= i < results.len(),
    ensures
        ports(results).len() == results.len(),
        ports(results)[i] == results[i]@,
{
}

} // verus!

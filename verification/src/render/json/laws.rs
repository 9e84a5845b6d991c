//! What the machine view tells.

use vstd::prelude::*;

use crate::process::Protocol;
use crate::render::json::{any_ended, ended, first_signal, port_doc, process_doc, report, Json};
use crate::render::laws::{law_protocol_names, law_signal_names, law_status_names};
use crate::render::types::{PortResultView, ProcessResultView, ProcessStatus, SignalKind};

verus! {

/// Whether a field holds a text, or null if there is none.
pub open spec fn tells(value: Json, o: Option<Seq<char>>) -> bool {
    match o {
        Some(text) => value == (Json::Text { value: text }),
        None => value == Json::Null,
    }
}

/// Each field of a process, by its name and in its place: what is known is told, and
/// what is not is null.
pub proof fn law_process_fields(row: ProcessResultView)
    ensures
        process_doc(row) matches Json::Object { fields } && {
            &&& fields.len() == 9
            &&& fields[0] == ("pid"@, Json::Number { value: row.pid as u64 })
            &&& fields[1] == ("name"@, Json::Text { value: row.name })
            &&& fields[2].0 == "command"@ && tells(fields[2].1, row.command)
            &&& fields[3].0 == "user"@ && tells(fields[3].1, row.user)
            &&& fields[4].0 == "uptime_secs"@
            &&& row.uptime_secs is None ==> fields[4].1 == Json::Null
            &&& row.uptime_secs matches Some(value) ==> fields[4].1 == (Json::Number { value })
            &&& fields[5].0 == "cwd"@ && tells(fields[5].1, row.cwd)
            &&& fields[8].0 == "error"@ && tells(fields[8].1, row.error)
        },
{
}

/// The status of a process is told by its name.
pub proof fn law_process_status(row: ProcessResultView)
    ensures
        process_doc(row) matches Json::Object { fields } && {
            let status = fields[6];
            &&& status.0 == "status"@
            &&& status.1 == (Json::Text { value: "info"@ }) <==> row.status == ProcessStatus::Info
            &&& status.1 == (Json::Text { value: "dry_run"@ }) <==> row.status
                == ProcessStatus::DryRun
            &&& status.1 == (Json::Text { value: "terminated"@ }) <==> row.status
                == ProcessStatus::Terminated
            &&& status.1 == (Json::Text { value: "killed"@ }) <==> row.status
                == ProcessStatus::Killed
            &&& status.1 == (Json::Text { value: "failed"@ }) <==> row.status
                == ProcessStatus::Failed
        },
{
    law_status_names(row.status, row.status);
}

/// The signal of a process is told by its name, and is null exactly if it has none.
pub proof fn law_process_signal(row: ProcessResultView)
    ensures
        process_doc(row) matches Json::Object { fields } && {
            let signal = fields[7];
            &&& signal.0 == "signal"@
            &&& signal.1 == (Json::Text { value: "SIGTERM"@ }) <==> row.signal == Some(
                SignalKind::Sigterm,
            )
            &&& signal.1 == (Json::Text { value: "SIGKILL"@ }) <==> row.signal == Some(
                SignalKind::Sigkill,
            )
            &&& signal.1 == Json::Null <==> row.signal is None
        },
{
    law_signal_names(SignalKind::Sigterm, SignalKind::Sigkill);
    if let Some(signal) = row.signal {
        law_signal_names(signal, signal);
    }
}

/// The document of a process tells all of its row: two rows with the same document are the
/// same.
pub proof fn law_process_doc_tells_all(a: ProcessResultView, b: ProcessResultView)
    requires
        process_doc(a) == process_doc(b),
    ensures
        a == b,
{
    let x = process_doc(a)->fields;
    let y = process_doc(b)->fields;
    assert(x[0] == y[0] && x[1] == y[1] && x[2] == y[2] && x[3] == y[3] && x[4] == y[4]);
    assert(x[5] == y[5] && x[6] == y[6] && x[7] == y[7] && x[8] == y[8]);
    law_status_names(a.status, b.status);
    if a.signal is Some && b.signal is Some {
        law_signal_names(a.signal->0, b.signal->0);
    }
}

/// Each field of a port, by its name and in its place, and each of its processes, in
/// order.
pub proof fn law_port_fields(port: PortResultView)
    ensures
        port_doc(port) matches Json::Object { fields } && {
            &&& fields.len() == 7
            &&& fields[0] == ("port"@, Json::Number { value: port.port as u64 })
            &&& fields[1].0 == "protocol"@
            &&& fields[1].1 == (Json::Text { value: "tcp"@ }) <==> port.protocol == Protocol::Tcp
            &&& fields[1].1 == (Json::Text { value: "udp"@ }) <==> port.protocol == Protocol::Udp
            &&& fields[2].0 == "free"@
            &&& fields[2].1 == (Json::Bool { value: true }) <==> port.free == Some(true)
            &&& fields[2].1 == (Json::Bool { value: false }) <==> port.free == Some(false)
            &&& fields[2].1 == Json::Null <==> port.free is None
            &&& fields[3].0 == "error"@ && tells(fields[3].1, port.error)
            &&& fields[4].0 == "processes"@
            &&& fields[4].1 matches Json::Array { items } && {
                &&& items.len() == port.processes.len()
                &&& forall|i: int|
                    0 <= i < items.len() ==> #[trigger] items[i] == process_doc(port.processes[i])
            }
        },
{
    law_protocol_names(port.protocol, port.protocol);
}

/// A port was killed exactly if the status of one of its processes is that it was
/// terminated or killed.
pub proof fn law_port_killed(port: PortResultView)
    ensures
        port_doc(port) matches Json::Object { fields } && {
            &&& fields[5].0 == "killed"@
            &&& fields[5].1 == (Json::Bool {
                value: exists|i: int|
                    0 <= i < port.processes.len() && ((#[trigger] port.processes[i]).status
                        == ProcessStatus::Terminated || port.processes[i].status
                        == ProcessStatus::Killed),
            })
        },
{
    let all = port.processes;
    if any_ended(all) {
        let i = choose|i: int| 0 <= i < all.len() && ended(#[trigger] all[i]);
        assert(all[i].status == ProcessStatus::Terminated || all[i].status
            == ProcessStatus::Killed);
    }
    if exists|i: int|
        0 <= i < all.len() && ((#[trigger] all[i]).status == ProcessStatus::Terminated
            || all[i].status == ProcessStatus::Killed) {
        let i = choose|i: int|
            0 <= i < all.len() && ((#[trigger] all[i]).status == ProcessStatus::Terminated
                || all[i].status == ProcessStatus::Killed);
        assert(ended(all[i]));
    }
}

/// Whether the signal of a row counts for its port: the row has one, and its process was
/// ended by it, or would be sent it.
pub open spec fn has_effect(row: ProcessResultView) -> bool {
    row.signal is Some && (row.status == ProcessStatus::Terminated || row.status
        == ProcessStatus::Killed || row.status == ProcessStatus::DryRun)
}

proof fn lemma_first_signal_is(processes: Seq<ProcessResultView>, i: int)
    requires
        0 <= i <= processes.len(),
        forall|j: int| 0 <= j < i ==> !has_effect(#[trigger] processes[j]),
        i < processes.len() ==> has_effect(processes[i]),
    ensures
        first_signal(processes) == if i < processes.len() {
            processes[i].signal
        } else {
            None
        },
    decreases processes.len(),
{
    if processes.len() > 0 {
        let front = processes.drop_last();
        if i < processes.len() - 1 {
            lemma_first_signal_is(front, i);
        } else {
            lemma_first_signal_is(front, front.len() as int);
            let last = processes[processes.len() - 1];
            if i == processes.len() {
                assert(!has_effect(last));
            }
        }
    }
}

/// The signal of a port is that of the first process that it had an effect on, or would
/// have.
pub proof fn law_port_signal(port: PortResultView, i: int)
    requires
        0 <= i <= port.processes.len(),
        forall|j: int| 0 <= j < i ==> !has_effect(#[trigger] port.processes[j]),
        i < port.processes.len() ==> has_effect(port.processes[i]),
    ensures
        port_doc(port) matches Json::Object { fields } && {
            let signal = fields[6];
            &&& signal.0 == "kill_signal"@
            &&& i == port.processes.len() ==> signal.1 == Json::Null
            &&& i < port.processes.len() && port.processes[i].signal == Some(SignalKind::Sigterm)
                ==> signal.1 == (Json::Text { value: "SIGTERM"@ })
            &&& i < port.processes.len() && port.processes[i].signal == Some(SignalKind::Sigkill)
                ==> signal.1 == (Json::Text { value: "SIGKILL"@ })
        },
{
    lemma_first_signal_is(port.processes, i);
}

/// The document of a port tells all of it.
pub proof fn law_port_doc_tells_all(a: PortResultView, b: PortResultView)
    requires
        port_doc(a) == port_doc(b),
    ensures
        a == b,
{
    let x = port_doc(a)->fields;
    let y = port_doc(b)->fields;
    assert(x[0] == y[0] && x[1] == y[1] && x[2] == y[2] && x[3] == y[3] && x[4] == y[4]);
    law_protocol_names(a.protocol, b.protocol);
    let p = x[4].1->items;
    let q = y[4].1->items;
    assert(p.len() == a.processes.len() && q.len() == b.processes.len());
    assert forall|i: int| 0 <= i < a.processes.len() implies a.processes[i] == b.processes[i] by {
        assert(p[i] == process_doc(a.processes[i]) && q[i] == process_doc(b.processes[i]));
        law_process_doc_tells_all(a.processes[i], b.processes[i]);
    }
    assert(a.processes =~= b.processes);
}

/// The report is an object with one field: the documents of the ports, in order.
pub proof fn law_report(results: Seq<PortResultView>)
    ensures
        report(results) matches Json::Object { fields } && {
            &&& fields.len() == 1
            &&& fields[0].0 == "ports"@
            &&& fields[0].1 matches Json::Array { items } && {
                &&& items.len() == results.len()
                &&& forall|i: int|
                    0 <= i < items.len() ==> #[trigger] items[i] == port_doc(results[i])
            }
        },
{
}

/// The report tells all of the results: two lists with the same report are the same.
pub proof fn law_report_tells_all(a: Seq<PortResultView>, b: Seq<PortResultView>)
    requires
        report(a) == report(b),
    ensures
        a == b,
{
    let x = report(a)->fields;
    let y = report(b)->fields;
    assert(x[0] == y[0]);
    let p = x[0].1->items;
    let q = y[0].1->items;
    assert(p.len() == a.len() && q.len() == b.len());
    assert forall|i: int| 0 <= i < a.len() implies a[i] == b[i] by {
        assert(p[i] == port_doc(a[i]) && q[i] == port_doc(b[i]));
        law_port_doc_tells_all(a[i], b[i]);
    }
    assert(a =~= b);
}

} // verus!

//! The machine view: one JSON document.
//!
//! Whatever went wrong, with a port or with a process, stands inside the document,
//! in fields of its own.

use vstd::prelude::*;

use crate::process::opt_text;
use crate::render::types::{
    ports, rows, PortResult, PortResultView, ProcessResult, ProcessResultView, ProcessStatus,
    SignalKind,
};

pub mod laws;

verus! {

// ---------------------------------------------------------------------------
// JSON documents
// ---------------------------------------------------------------------------

/// A JSON document. The fields of an object have an order.
pub enum Json {
    Null,
    Bool { value: bool },
    Number { value: u64 },
    Text { value: Seq<char> },
    Array { items: Seq<Json> },
    Object { fields: Seq<(Seq<char>, Json)> },
}

/// `serde_json::Value`: a JSON document.
#[verifier::external_type_specification]
#[verifier::external_body]
pub struct ExValue(serde_json::Value);

/// `serde_json::Error`: why a document could not be written.
#[verifier::external_type_specification]
#[verifier::external_body]
pub struct ExError(serde_json::Error);

/// The document that a `serde_json::Value` holds.
pub uninterp spec fn content(value: serde_json::Value) -> Json;

/// The text that `serde_json::to_string_pretty` writes for a document.
pub uninterp spec fn json_text(document: Json) -> Seq<char>;

/// The documents that some values hold.
pub open spec fn contents(values: Seq<serde_json::Value>) -> Seq<Json> {
    values.map_values(|v: serde_json::Value| content(v))
}

/// The fields that some named values make.
pub open spec fn fields_of(named: Seq<(String, serde_json::Value)>) -> Seq<(Seq<char>, Json)> {
    named.map_values(|f: (String, serde_json::Value)| (f.0@, content(f.1)))
}

/// Whether no two fields have the same name.
pub open spec fn distinct(fields: Seq<(Seq<char>, Json)>) -> bool {
    forall|i: int, j: int|
        0 <= i < j < fields.len() ==> (#[trigger] fields[i]).0 != (#[trigger] fields[j]).0
}

/// `serde_json::Value::Null`.
#[verifier::external_body]
pub(crate) fn null() -> (r: serde_json::Value)
    ensures
        content(r) == Json::Null,
{
    serde_json::Value::Null
}

/// `serde_json::Value::Bool`.
#[verifier::external_body]
pub(crate) fn boolean(value: bool) -> (r: serde_json::Value)
    ensures
        content(r) == (Json::Bool { value }),
{
    serde_json::Value::Bool(value)
}

/// `serde_json::Value::from` for a number.
#[verifier::external_body]
pub(crate) fn number(value: u64) -> (r: serde_json::Value)
    ensures
        content(r) == (Json::Number { value }),
{
    serde_json::Value::from(value)
}

/// `serde_json::Value::from` for a text.
#[verifier::external_body]
pub(crate) fn text(value: &str) -> (r: serde_json::Value)
    ensures
        content(r) == (Json::Text { value: value@ }),
{
    serde_json::Value::from(value)
}

/// `serde_json::Value::Array`.
#[verifier::external_body]
pub(crate) fn array(items: Vec<serde_json::Value>) -> (r: serde_json::Value)
    ensures
        content(r) == (Json::Array { items: contents(items@) }),
{
    serde_json::Value::Array(items)
}

/// `serde_json::Map::from_iter`, as an object. With distinct names it keeps every
/// field, in the given order.
#[verifier::external_body]
pub(crate) fn object(fields: Vec<(String, serde_json::Value)>) -> (r: serde_json::Value)
    requires
        distinct(fields_of(fields@)),
    ensures
        content(r) == (Json::Object { fields: fields_of(fields@) }),
{
    serde_json::Value::Object(serde_json::Map::from_iter(fields))
}

/// `serde_json::to_string_pretty` on a document: it never fails, and what it writes
/// depends on nothing but the document.
#[verifier::external_body]
pub(crate) fn pretty(value: &serde_json::Value) -> (r: Result<String, serde_json::Error>)
    ensures
        r is Ok,
        r->Ok_0@ == json_text(content(*value)),
{
    serde_json::to_string_pretty(value)
}

// ---------------------------------------------------------------------------
// The report
// ---------------------------------------------------------------------------

/// Whether the process was ended.
pub open spec fn ended(row: ProcessResultView) -> bool {
    row.status == ProcessStatus::Terminated || row.status == ProcessStatus::Killed
}

/// Whether one of the processes was ended.
pub open spec fn any_ended(processes: Seq<ProcessResultView>) -> bool {
    exists|i: int| 0 <= i < processes.len() && ended(#[trigger] processes[i])
}

/// The signal that ended the process, or would be sent to it.
pub open spec fn row_signal(row: ProcessResultView) -> Option<SignalKind> {
    if ended(row) || row.status == ProcessStatus::DryRun {
        row.signal
    } else {
        None
    }
}

/// The first signal that ended one of the processes, or would be sent to it.
pub open spec fn first_signal(processes: Seq<ProcessResultView>) -> Option<SignalKind>
    decreases processes.len(),
{
    if processes.len() == 0 {
        None
    } else {
        match first_signal(processes.drop_last()) {
            Some(signal) => Some(signal),
            None => row_signal(processes.last()),
        }
    }
}

/// A text, or null if there is none.
pub open spec fn text_or_null(o: Option<Seq<char>>) -> Json {
    match o {
        Some(value) => Json::Text { value },
        None => Json::Null,
    }
}

/// The name of a signal, or null if there is none.
pub open spec fn signal_or_null(o: Option<SignalKind>) -> Json {
    match o {
        Some(signal) => Json::Text { value: signal.spec_name() },
        None => Json::Null,
    }
}

/// The object for a process.
pub open spec fn process_doc(row: ProcessResultView) -> Json {
    Json::Object {
        fields: seq![
            ("pid"@, Json::Number { value: row.pid as u64 }),
            ("name"@, Json::Text { value: row.name }),
            ("command"@, text_or_null(row.command)),
            ("user"@, text_or_null(row.user)),
            (
                "uptime_secs"@,
                match row.uptime_secs {
                    Some(value) => Json::Number { value },
                    None => Json::Null,
                },
            ),
            ("cwd"@, text_or_null(row.cwd)),
            ("status"@, Json::Text { value: row.status.spec_name() }),
            ("signal"@, signal_or_null(row.signal)),
            ("error"@, text_or_null(row.error)),
        ],
    }
}

/// The object for a port.
pub open spec fn port_doc(port: PortResultView) -> Json {
    Json::Object {
        fields: seq![
            ("port"@, Json::Number { value: port.port as u64 }),
            ("protocol"@, Json::Text { value: port.protocol.spec_name() }),
            (
                "free"@,
                match port.free {
                    Some(value) => Json::Bool { value },
                    None => Json::Null,
                },
            ),
            ("error"@, text_or_null(port.error)),
            (
                "processes"@,
                Json::Array {
                    items: port.processes.map_values(|row: ProcessResultView| process_doc(row)),
                },
            ),
            ("killed"@, Json::Bool { value: any_ended(port.processes) }),
            ("kill_signal"@, signal_or_null(first_signal(port.processes))),
        ],
    }
}

/// The whole report: the ports, in order.
pub open spec fn report(results: Seq<PortResultView>) -> Json {
    Json::Object {
        fields: seq![
            (
                "ports"@,
                Json::Array { items: results.map_values(|port: PortResultView| port_doc(port)) },
            ),
        ],
    }
}

/// Whether one of the processes was ended.
pub fn was_killed(processes: &Vec<ProcessResult>) -> (r: bool)
    ensures
        r == any_ended(rows(processes@)),
{
    let ghost all = rows(processes@);
    let mut i: usize = 0;
    while i < processes.len()
        invariant
            i <= processes@.len(),
            all == rows(processes@),
            forall|k: int| 0 <= k < i ==> !ended(#[trigger] all[k]),
        decreases processes@.len() - i,
    {
        if matches!(processes[i].status, ProcessStatus::Terminated | ProcessStatus::Killed) {
            assert(ended(all[i as int]));
            return true;
        }
        assert(!ended(all[i as int]));
        i += 1;
    }
    false
}

/// The first signal that ended one of the processes, or would be sent to it.
pub fn kill_signal(processes: &Vec<ProcessResult>) -> (r: Option<SignalKind>)
    ensures
        r == first_signal(rows(processes@)),
{
    let ghost all = rows(processes@);
    let mut i: usize = 0;
    assert(all.take(0) =~= Seq::<ProcessResultView>::empty());
    while i < processes.len()
        invariant
            i <= processes@.len(),
            all == rows(processes@),
            first_signal(all.take(i as int)) is None,
        decreases processes@.len() - i,
    {
        let row = &processes[i];
        proof {
            assert(all.take(i + 1).drop_last() =~= all.take(i as int));
            assert(all.take(i + 1).last() == row@);
        }
        if matches!(
            row.status,
            ProcessStatus::Terminated | ProcessStatus::Killed | ProcessStatus::DryRun
        ) {
            if row.signal.is_some() {
                proof {
                    lemma_first_signal(all, i + 1);
                }
                return row.signal;
            }
        }
        i += 1;
    }
    assert(all.take(all.len() as int) =~= all);
    None
}

proof fn lemma_first_signal(processes: Seq<ProcessResultView>, n: int)
    requires
        0 <= n <= processes.len(),
        first_signal(processes.take(n)) is Some,
    ensures
        first_signal(processes) == first_signal(processes.take(n)),
    decreases processes.len() - n,
{
    if n < processes.len() {
        assert(processes.take(n + 1).drop_last() =~= processes.take(n));
        lemma_first_signal(processes, n + 1);
    } else {
        assert(processes.take(n) =~= processes);
    }
}

fn optional_text(o: &Option<String>) -> (r: serde_json::Value)
    ensures
        content(r) == text_or_null(opt_text(*o)),
{
    match o {
        Some(value) => text(value.as_str()),
        None => null(),
    }
}

fn optional_signal(o: Option<SignalKind>) -> (r: serde_json::Value)
    ensures
        content(r) == signal_or_null(o),
{
    match o {
        Some(signal) => text(signal.name()),
        None => null(),
    }
}

/// The object for a process.
fn process_value(row: &ProcessResult) -> (r: serde_json::Value)
    ensures
        content(r) == process_doc(row@),
{
    let mut fields: Vec<(String, serde_json::Value)> = Vec::new();
    fields.push(("pid".to_string(), number(row.pid as u64)));
    fields.push(("name".to_string(), text(row.name.as_str())));
    fields.push(("command".to_string(), optional_text(&row.command)));
    fields.push(("user".to_string(), optional_text(&row.user)));
    let uptime = match row.uptime_secs {
        Some(value) => number(value),
        None => null(),
    };
    fields.push(("uptime_secs".to_string(), uptime));
    fields.push(("cwd".to_string(), optional_text(&row.cwd)));
    fields.push(("status".to_string(), text(row.status.name())));
    fields.push(("signal".to_string(), optional_signal(row.signal)));
    fields.push(("error".to_string(), optional_text(&row.error)));
    proof {
        assert(fields_of(fields@) =~= process_doc(row@)->fields);
        reveal_strlit("pid");
        reveal_strlit("name");
        reveal_strlit("command");
        reveal_strlit("user");
        reveal_strlit("uptime_secs");
        reveal_strlit("cwd");
        reveal_strlit("status");
        reveal_strlit("signal");
        reveal_strlit("error");
        let shown = fields_of(fields@);
        assert(shown[0].0[0] == 'p' && shown[0].0.len() == 3);
        assert(shown[1].0[0] == 'n' && shown[1].0.len() == 4);
        assert(shown[2].0.len() == 7);
        assert(shown[3].0[0] == 'u' && shown[3].0.len() == 4);
        assert(shown[4].0.len() == 11);
        assert(shown[5].0[0] == 'c' && shown[5].0.len() == 3);
        assert(shown[6].0[1] == 't' && shown[6].0.len() == 6);
        assert(shown[7].0[1] == 'i' && shown[7].0.len() == 6);
        assert(shown[8].0.len() == 5);
    }
    object(fields)
}

/// The object for a port.
fn port_value(port: &PortResult) -> (r: serde_json::Value)
    ensures
        content(r) == port_doc(port@),
{
    let mut processes: Vec<serde_json::Value> = Vec::new();
    let mut i: usize = 0;
    while i < port.processes.len()
        invariant
            i <= port.processes@.len(),
            processes@.len() == i,
            forall|k: int|
                0 <= k < i ==> content(#[trigger] processes@[k]) == process_doc(
                    port.processes@[k]@,
                ),
        decreases port.processes@.len() - i,
    {
        processes.push(process_value(&port.processes[i]));
        i += 1;
    }
    assert(contents(processes@) =~= port@.processes.map_values(
        |row: ProcessResultView| process_doc(row),
    ));
    let free = match port.free {
        Some(value) => boolean(value),
        None => null(),
    };
    let mut fields: Vec<(String, serde_json::Value)> = Vec::new();
    fields.push(("port".to_string(), number(port.port as u64)));
    fields.push(("protocol".to_string(), text(port.protocol.name())));
    fields.push(("free".to_string(), free));
    fields.push(("error".to_string(), optional_text(&port.error)));
    fields.push(("processes".to_string(), array(processes)));
    fields.push(("killed".to_string(), boolean(was_killed(&port.processes))));
    fields.push(("kill_signal".to_string(), optional_signal(kill_signal(&port.processes))));
    proof {
        assert(fields_of(fields@) =~= port_doc(port@)->fields);
        reveal_strlit("port");
        reveal_strlit("protocol");
        reveal_strlit("free");
        reveal_strlit("error");
        reveal_strlit("processes");
        reveal_strlit("killed");
        reveal_strlit("kill_signal");
        let shown = fields_of(fields@);
        assert(shown[0].0[0] == 'p' && shown[0].0.len() == 4);
        assert(shown[1].0.len() == 8);
        assert(shown[2].0[0] == 'f' && shown[2].0.len() == 4);
        assert(shown[3].0.len() == 5);
        assert(shown[4].0.len() == 9);
        assert(shown[5].0.len() == 6);
        assert(shown[6].0.len() == 11);
    }
    object(fields)
}

/// The machine view of the results: the report, as indented JSON.
pub fn render_json(results: &[PortResult]) -> (out: String)
    ensures
        out@ == json_text(report(ports(results@))),
{
    let mut items: Vec<serde_json::Value> = Vec::new();
    let mut i: usize = 0;
    while i < results.len()
        invariant
            i <= results@.len(),
            items@.len() == i,
            forall|k: int|
                0 <= k < i ==> content(#[trigger] items@[k]) == port_doc(results@[k]@),
        decreases results@.len() - i,
    {
        items.push(port_value(&results[i]));
        i += 1;
    }
    assert(contents(items@) =~= ports(results@).map_values(|port: PortResultView| port_doc(port)));
    let mut fields: Vec<(String, serde_json::Value)> = Vec::new();
    fields.push(("ports".to_string(), array(items)));
    assert(fields_of(fields@) =~= report(ports(results@))->fields);
    match pretty(&object(fields)) {
        Ok(out) => out,
        Err(_) => "{}".to_string(),
    }
}

/// A port on which nothing was done is not called killed, and has no signal.
pub proof fn law_inspection_kills_nothing(processes: Seq<ProcessResultView>)
    requires
        forall|i: int|
            0 <= i < processes.len() ==> (#[trigger] processes[i]).status == ProcessStatus::Info,
    ensures
        !any_ended(processes),
        first_signal(processes) is None,
    decreases processes.len(),
{
    if processes.len() > 0 {
        let front = processes.drop_last();
        assert forall|i: int| 0 <= i < front.len() implies (#[trigger] front[i]).status
            == ProcessStatus::Info by {
            assert(front[i] == processes[i]);
        }
        law_inspection_kills_nothing(front);
        assert(processes[processes.len() - 1].status == ProcessStatus::Info);
    }
}

/// A dry run is not called killed, but names the signal that would be sent.
pub proof fn law_dry_run_kills_nothing(processes: Seq<ProcessResultView>, signal: SignalKind)
    requires
        processes.len() > 0,
        forall|i: int|
            0 <= i < processes.len() ==> (#[trigger] processes[i]).status == ProcessStatus::DryRun
                && processes[i].signal == Some(signal),
    ensures
        !any_ended(processes),
        first_signal(processes) == Some(signal),
    decreases processes.len(),
{
    let front = processes.drop_last();
    assert(processes[processes.len() - 1].status == ProcessStatus::DryRun);
    if front.len() > 0 {
        assert forall|i: int| 0 <= i < front.len() implies (#[trigger] front[i]).status
            == ProcessStatus::DryRun && front[i].signal == Some(signal) by {
            assert(front[i] == processes[i]);
        }
        law_dry_run_kills_nothing(front, signal);
    }
}

} // verus!

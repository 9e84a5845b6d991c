//! Windows: `netstat` names the listeners and their processes.
//!
//! It does not name the processes in words, so each goes by a placeholder until
//! more is known of it.

use vstd::prelude::*;
use vstd::slice::slice_subrange;
use vstd::string::StringExecFns;

use crate::error::{AppError, AppErrorView};
use crate::platform::{
    command_output, dedup_by_pid, first_of_each, law_dedup_loses_none, listed, output_of,
    CommandReply,
};
use crate::process::{infos, placeholder, placeholder_name, ProcessInfo, ProcessInfoView};
use crate::text::{
    after_last, chars_of, find, find_char, lines, lowered, parse, parse_number, rest_after_last,
    same_text, split_lines, split_words, to_lower, views, words,
};

pub mod laws;

verus! {

/// One row of `netstat` for a socket that listens on the port.
#[derive(Debug, Clone, Copy, PartialEq, Eq, Structural)]
pub struct NetstatRow {
    pub pid: u32,
    pub local_port: u16,
}

/// The number that a word stands for, if it is that of a port.
pub open spec fn port_number(word: Seq<char>) -> Option<u16> {
    match parse(word, 10, u16::MAX as nat) {
        Some(port) => Some(port as u16),
        None => None,
    }
}

/// The port in a local address such as `0.0.0.0:3000` or `[::]:3000`.
pub open spec fn address_port(address: Seq<char>) -> Option<u16> {
    if address.len() > 0 && address[0] == '[' {
        let rest = after_last(address, ']');
        if rest.len() > 0 && rest[0] == ':' {
            port_number(rest.skip(1))
        } else {
            None
        }
    } else if find(address, ':') < address.len() {
        port_number(after_last(address, ':'))
    } else {
        None
    }
}

/// The row in a line of `netstat`, if it is one of a socket that listens on `port`:
/// five words, of which the second is the local address, the fourth the state, in
/// any case, and the last the process.
pub open spec fn netstat_row(line: Seq<char>, port: u16) -> Option<NetstatRow> {
    let ws = words(line);
    if ws.len() == 5 && lowered(ws[3]) == "listening"@ && address_port(ws[1]) == Some(port) {
        match parse(ws[4], 10, u32::MAX as nat) {
            Some(pid) => Some(NetstatRow { pid: pid as u32, local_port: port }),
            None => None,
        }
    } else {
        None
    }
}

/// The rows in some lines of `netstat`, in order.
pub open spec fn netstat_rows(ls: Seq<Seq<char>>, port: u16) -> Seq<NetstatRow>
    decreases ls.len(),
{
    if ls.len() == 0 {
        Seq::empty()
    } else {
        let before = netstat_rows(ls.drop_last(), port);
        match netstat_row(ls.last(), port) {
            Some(row) => before.push(row),
            None => before,
        }
    }
}

fn port_in(address: &[char]) -> (r: Option<u16>)
    ensures
        r == address_port(address@),
{
    if address.len() > 0 && address[0] == '[' {
        let rest = rest_after_last(address, ']');
        if rest.len() == 0 || rest[0] != ':' {
            return None;
        }
        assert(rest@.subrange(1, rest@.len() as int) == rest@.skip(1));
        match parse_number(slice_subrange(rest, 1, rest.len()), 10, 0xffff) {
            Some(port) => Some(port as u16),
            None => None,
        }
    } else {
        if find_char(address, ':') >= address.len() {
            return None;
        }
        match parse_number(rest_after_last(address, ':'), 10, 0xffff) {
            Some(port) => Some(port as u16),
            None => None,
        }
    }
}

/// The port in a local address such as `0.0.0.0:3000` or `[::]:3000`.
pub fn port_of(local_address: &str) -> (r: Option<u16>)
    ensures
        r == address_port(local_address@),
{
    let chars = chars_of(local_address);
    port_in(chars.as_slice())
}

/// Whether a word is `listening`, in any case.
fn says_listening(word: &[char]) -> (r: bool)
    ensures
        r == (lowered(word@) == "listening"@),
{
    let mut low: Vec<char> = Vec::new();
    let mut i: usize = 0;
    while i < word.len()
        invariant
            i <= word@.len(),
            low@ == lowered(word@.take(i as int)),
        decreases word@.len() - i,
    {
        low.push(to_lower(word[i]));
        assert(word@.take(i + 1) == word@.take(i as int).push(word@[i as int]));
        i += 1;
    }
    assert(word@.take(word@.len() as int) == word@);
    same_text(low.as_slice(), "listening")
}

/// The row in a line of `netstat`, if it is one of a socket that listens on `port`.
pub fn parse_netstat_line(line: &[char], port: u16) -> (r: Option<NetstatRow>)
    ensures
        r == netstat_row(line@, port),
{
    let ws = split_words(line);
    let ghost all = words(line@);
    if ws.len() != 5 {
        return None;
    }
    proof {
        assert(all[1] == ws@[1]@ && all[3] == ws@[3]@ && all[4] == ws@[4]@);
    }
    if !says_listening(ws[3]) {
        return None;
    }
    match (port_in(ws[1]), parse_number(ws[4], 10, 0xffff_ffff)) {
        (Some(local_port), Some(pid)) => {
            if local_port == port {
                Some(NetstatRow { pid: pid as u32, local_port })
            } else {
                None
            }
        },
        _ => None,
    }
}

/// The rows in what `netstat` wrote for sockets that listen on `port`. Every other
/// line is skipped.
pub fn parse_netstat(output: &str, port: u16) -> (r: Vec<NetstatRow>)
    ensures
        r@ == netstat_rows(lines(output@), port),
{
    let chars = chars_of(output);
    let ls = split_lines(chars.as_slice());
    let ghost all = lines(output@);
    let mut out: Vec<NetstatRow> = Vec::new();
    let mut i: usize = 0;
    assert(all.take(0) == Seq::<Seq<char>>::empty());
    while i < ls.len()
        invariant
            i <= ls@.len(),
            all == views(ls@),
            out@ == netstat_rows(all.take(i as int), port),
        decreases ls@.len() - i,
    {
        proof {
            assert(all.take(i + 1).drop_last() == all.take(i as int));
            assert(all.take(i + 1).last() == ls@[i as int]@);
        }
        if let Some(row) = parse_netstat_line(ls[i], port) {
            out.push(row);
        }
        i += 1;
    }
    assert(all.take(all.len() as int) == all);
    out
}

// ---------------------------------------------------------------------------
// Asking the system
// ---------------------------------------------------------------------------

/// The command that is run.
pub trait WindowsCommands {
    /// Run `netstat -ano -p TCP`.
    fn netstat(&self) -> CommandReply;
}

/// What `netstat` wrote.
pub open spec fn netstat_output(reply: CommandReply) -> Result<Seq<char>, AppErrorView> {
    command_output("netstat"@, reply, false)
}

/// What is known of the processes of some rows, each once.
pub open spec fn row_processes(rows: Seq<NetstatRow>) -> Seq<ProcessInfoView> {
    first_of_each(
        rows.map_values(|row: NetstatRow| ProcessInfoView::bare(row.pid, placeholder(row.pid))),
    )
}

/// What is found on a port, given what `netstat` answers.
pub open spec fn found(port: u16, reply: CommandReply) -> Result<
    Seq<ProcessInfoView>,
    AppErrorView,
> {
    match netstat_output(reply) {
        Err(e) => Err(e),
        Ok(text) => Ok(row_processes(netstat_rows(lines(text), port))),
    }
}

/// Whether a port is free, given what `netstat` answers.
pub open spec fn free(port: u16, reply: CommandReply) -> Result<bool, AppErrorView> {
    match netstat_output(reply) {
        Err(e) => Err(e),
        Ok(text) => Ok(netstat_rows(lines(text), port).len() == 0),
    }
}

/// The processes that listen on `port`, each once.
pub fn get_processes_on_port<C: WindowsCommands + ?Sized>(port: u16, commands: &C) -> (r: Result<
    Vec<ProcessInfo>,
    AppError,
>)
    ensures
        exists|reply: CommandReply| #[trigger]
            call_ensures(C::netstat, (commands,), reply) && match r {
                Ok(processes) => found(port, reply) == Ok::<Seq<ProcessInfoView>, AppErrorView>(
                    infos(processes@),
                ),
                Err(e) => found(port, reply) == Err::<Seq<ProcessInfoView>, AppErrorView>(e@),
            },
{
    let reply = commands.netstat();
    match output_of("netstat", reply, false) {
        Err(e) => Err(e),
        Ok(text) => {
            let rows = parse_netstat(text.as_str(), port);
            let mut processes: Vec<ProcessInfo> = Vec::new();
            let mut i: usize = 0;
            while i < rows.len()
                invariant
                    i <= rows@.len(),
                    processes@.len() == i,
                    forall|k: int|
                        0 <= k < i ==> (#[trigger] processes@[k])@ == ProcessInfoView::bare(
                            rows@[k].pid,
                            placeholder(rows@[k].pid),
                        ),
                decreases rows@.len() - i,
            {
                processes.push(ProcessInfo::bare(rows[i].pid, placeholder_name(rows[i].pid)));
                i += 1;
            }
            assert(infos(processes@) =~= rows@.map_values(
                |row: NetstatRow| ProcessInfoView::bare(row.pid, placeholder(row.pid)),
            ));
            Ok(dedup_by_pid(processes))
        },
    }
}

/// Whether nothing listens on `port`.
pub fn is_port_free<C: WindowsCommands + ?Sized>(port: u16, commands: &C) -> (r: Result<
    bool,
    AppError,
>)
    ensures
        exists|reply: CommandReply| #[trigger]
            call_ensures(C::netstat, (commands,), reply) && match r {
                Ok(nothing) => free(port, reply) == Ok::<bool, AppErrorView>(nothing),
                Err(e) => free(port, reply) == Err::<bool, AppErrorView>(e@),
            },
{
    let reply = commands.netstat();
    match output_of("netstat", reply, false) {
        Err(e) => Err(e),
        Ok(text) => Ok(parse_netstat(text.as_str(), port).len() == 0),
    }
}

/// A port is called free exactly when no process is found on it and nothing went
/// wrong; what goes wrong is the same for both questions.
pub proof fn law_free_means_nothing_found(port: u16, reply: CommandReply)
    ensures
        free(port, reply) == match found(port, reply) {
            Ok(processes) => Ok::<bool, AppErrorView>(processes.len() == 0),
            Err(e) => Err(e),
        },
{
    if let Ok(text) = netstat_output(reply) {
        let rows = netstat_rows(lines(text), port);
        if rows.len() > 0 {
            let processes = rows.map_values(
                |row: NetstatRow| ProcessInfoView::bare(row.pid, placeholder(row.pid)),
            );
            assert(processes[0].pid == rows[0].pid);
            law_dedup_loses_none(processes, rows[0].pid);
            assert(listed(first_of_each(processes), rows[0].pid));
        }
    }
}

/// The rows in some lines and some more are those in both, one after the other.
pub proof fn lemma_rows_concat(a: Seq<Seq<char>>, b: Seq<Seq<char>>, port: u16)
    ensures
        netstat_rows(a + b, port) == netstat_rows(a, port) + netstat_rows(b, port),
    decreases b.len(),
{
    if b.len() == 0 {
        assert(a + b =~= a);
        assert(netstat_rows(a, port) + netstat_rows(b, port) =~= netstat_rows(a, port));
    } else {
        lemma_rows_concat(a, b.drop_last(), port);
        assert((a + b).drop_last() =~= a + b.drop_last());
        assert(netstat_rows(a + b, port) =~= netstat_rows(a, port) + netstat_rows(b, port));
    }
}

/// A line that holds no row, wherever it stands, changes nothing.
pub proof fn law_other_lines_are_skipped(
    before: Seq<Seq<char>>,
    line: Seq<char>,
    after: Seq<Seq<char>>,
    port: u16,
)
    requires
        netstat_row(line, port) is None,
    ensures
        netstat_rows(before + seq![line] + after, port) == netstat_rows(before + after, port),
{
    lemma_rows_concat(before + seq![line], after, port);
    lemma_rows_concat(before, seq![line], port);
    lemma_rows_concat(before, after, port);
    assert(seq![line].drop_last() =~= Seq::<Seq<char>>::empty());
    assert(netstat_rows(Seq::<Seq<char>>::empty(), port) =~= Seq::<NetstatRow>::empty());
    assert(netstat_rows(seq![line], port) =~= Seq::<NetstatRow>::empty());
    assert(netstat_rows(before, port) + Seq::<NetstatRow>::empty() =~= netstat_rows(before, port));
}

} // verus!

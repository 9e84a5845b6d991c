//! macOS: `lsof` names the listeners, and `netstat` checks it.
//!
//! `lsof` shows only the processes that the user may see. When it shows none, the
//! port is free only if `netstat`, which shows every bound port, agrees; otherwise
//! the port is occupied by a process that is hidden.

use vstd::prelude::*;
use vstd::string::StringExecFns;

use crate::error::{AppError, AppErrorView};
use crate::platform::{
    command_output, dedup_by_pid, first_of_each, law_dedup_loses_none, output_of, CommandReply,
};
use crate::process::{clone_text, infos, opt_text, ProcessInfo, ProcessInfoView};
use crate::text::{
    all_digits, chars_of, dec, decimal, digit, digit_of, ends_with, has_part, has_prefix,
    has_suffix, join, join_spaced, lemma_dec, lines, occurs, occurs_at, parse, parse_number,
    same_text, split_lines, split_words, starts_with, views, words,
};

pub mod laws;

verus! {

/// One row of `lsof` for a socket that listens on the port.
#[derive(Debug, Clone, PartialEq, Eq)]
pub struct LsofRow {
    pub command: String,
    pub pid: u32,
    pub user: Option<String>,
    /// The last columns, such as `TCP 127.0.0.1:3000 (LISTEN)`.
    pub name: String,
}

/// What a [`LsofRow`] holds, as mathematical text.
#[verifier::ext_equal]
pub struct LsofRowView {
    pub command: Seq<char>,
    pub pid: u32,
    pub user: Option<Seq<char>>,
    pub name: Seq<char>,
}

impl View for LsofRow {
    type V = LsofRowView;

    open spec fn view(&self) -> LsofRowView {
        LsofRowView {
            command: self.command@,
            pid: self.pid,
            user: opt_text(self.user),
            name: self.name@,
        }
    }
}

/// The views of a list of rows.
pub open spec fn row_views(rows: Seq<LsofRow>) -> Seq<LsofRowView> {
    rows.map_values(|r: LsofRow| r@)
}

/// Whether a word stands for a network socket in the `TYPE` column.
pub open spec fn is_socket_type(word: Seq<char>) -> bool {
    word == "IPv4"@ || word == "IPv6"@
}

/// Whether a word consists of decimal digits.
pub open spec fn is_numeric(word: Seq<char>) -> bool {
    word.len() > 0 && all_digits(word, 10)
}

/// The position of the first word for which `f` holds; their number if there is
/// none.
pub open spec fn first_word(ws: Seq<Seq<char>>, f: spec_fn(Seq<char>) -> bool) -> int
    decreases ws.len(),
{
    if ws.len() == 0 || f(ws[0]) {
        0
    } else {
        1 + first_word(ws.skip(1), f)
    }
}

/// What the `NAME` column of a listener on `port` holds.
pub open spec fn port_mark(port: u16) -> Seq<char> {
    ":"@ + dec(port as nat) + " (LISTEN)"@
}

/// The row in a line of `lsof`, if it is one of a socket that listens on `port`.
///
/// A command or a user may contain spaces, so positions are counted from the
/// `TYPE` column, the first word that stands for a network socket. The number of
/// the process is the first numeric word; the command is what stands before it, the
/// user what stands between it and the `FD` column, which is next to `TYPE`. The
/// name begins three words after `TYPE`.
pub open spec fn lsof_row(line: Seq<char>, port: u16) -> Option<LsofRowView> {
    let ws = words(line);
    let kind = first_word(ws, |w: Seq<char>| is_socket_type(w));
    let number = first_word(ws, |w: Seq<char>| is_numeric(w));
    if kind + 3 < ws.len() && number + 2 < kind {
        let name = join(ws.skip(kind + 3), seq![' ']);
        match parse(ws[number], 10, u32::MAX as nat) {
            Some(pid) => if occurs(name, port_mark(port)) {
                Some(
                    LsofRowView {
                        command: join(ws.take(number), seq![' ']),
                        pid: pid as u32,
                        user: Some(join(ws.subrange(number + 1, kind - 1), seq![' '])),
                        name,
                    },
                )
            } else {
                None
            },
            None => None,
        }
    } else {
        None
    }
}

/// The rows in some lines of `lsof`, in order.
pub open spec fn lsof_rows(ls: Seq<Seq<char>>, port: u16) -> Seq<LsofRowView>
    decreases ls.len(),
{
    if ls.len() == 0 {
        Seq::empty()
    } else {
        let before = lsof_rows(ls.drop_last(), port);
        match lsof_row(ls.last(), port) {
            Some(row) => before.push(row),
            None => before,
        }
    }
}

/// The lines after the first, which is a heading.
pub open spec fn body(ls: Seq<Seq<char>>) -> Seq<Seq<char>> {
    if ls.len() == 0 {
        ls
    } else {
        ls.skip(1)
    }
}

/// The rows in what `lsof` wrote.
pub open spec fn listeners(output: Seq<char>, port: u16) -> Seq<LsofRowView> {
    lsof_rows(body(lines(output)), port)
}

/// A word is the first if the property holds of it and of none before it.
pub proof fn lemma_first_word(ws: Seq<Seq<char>>, f: spec_fn(Seq<char>) -> bool, n: int)
    requires
        0 <= n <= ws.len(),
        forall|i: int| 0 <= i < n ==> !f(#[trigger] ws[i]),
        n < ws.len() ==> f(ws[n]),
    ensures
        first_word(ws, f) == n,
    decreases ws.len(),
{
    if n > 0 {
        assert(!f(ws[0]));
        let rest = ws.skip(1);
        assert forall|i: int| 0 <= i < n - 1 implies !f(#[trigger] rest[i]) by {
            assert(rest[i] == ws[i + 1]);
        }
        lemma_first_word(rest, f, n - 1);
    }
}

/// The position of the first word that stands for a network socket.
fn find_type(ws: &Vec<&[char]>) -> (n: usize)
    ensures
        n == first_word(views(ws@), |w: Seq<char>| is_socket_type(w)),
        n <= ws@.len(),
{
    let ghost all = views(ws@);
    let ghost f = |w: Seq<char>| is_socket_type(w);
    let mut n: usize = 0;
    while n < ws.len() && !(same_text(ws[n], "IPv4") || same_text(ws[n], "IPv6"))
        invariant
            n <= ws@.len(),
            all == views(ws@),
            f == (|w: Seq<char>| is_socket_type(w)),
            forall|i: int| 0 <= i < n ==> !f(#[trigger] all[i]),
        decreases ws@.len() - n,
    {
        assert(all[n as int] == ws@[n as int]@);
        n += 1;
    }
    proof {
        lemma_first_word(all, f, n as int);
    }
    n
}

/// Whether a word consists of decimal digits.
fn numeric(word: &[char]) -> (r: bool)
    ensures
        r == is_numeric(word@),
{
    let mut i: usize = 0;
    while i < word.len()
        invariant
            i <= word@.len(),
            forall|k: int| 0 <= k < i ==> digit(#[trigger] word@[k]) < 10,
        decreases word@.len() - i,
    {
        if digit_of(word[i]) >= 10 {
            return false;
        }
        i += 1;
    }
    word.len() > 0
}

/// The position of the first word that consists of decimal digits.
fn find_number(ws: &Vec<&[char]>) -> (n: usize)
    ensures
        n == first_word(views(ws@), |w: Seq<char>| is_numeric(w)),
        n <= ws@.len(),
{
    let ghost all = views(ws@);
    let ghost f = |w: Seq<char>| is_numeric(w);
    let mut n: usize = 0;
    while n < ws.len() && !numeric(ws[n])
        invariant
            n <= ws@.len(),
            all == views(ws@),
            f == (|w: Seq<char>| is_numeric(w)),
            forall|i: int| 0 <= i < n ==> !f(#[trigger] all[i]),
        decreases ws@.len() - n,
    {
        assert(all[n as int] == ws@[n as int]@);
        n += 1;
    }
    proof {
        lemma_first_word(all, f, n as int);
    }
    n
}

/// What the `NAME` column of a listener on `port` holds.
fn mark_of(port: u16) -> (out: Vec<char>)
    ensures
        out@ == port_mark(port),
{
    let mut mark = String::new();
    mark.append(":");
    mark.append(decimal(port as u64).as_str());
    mark.append(" (LISTEN)");
    chars_of(mark.as_str())
}

/// The row in a line of `lsof`, if it is one of a socket that listens on `port`.
pub fn parse_lsof_line(line: &[char], port: u16) -> (r: Option<LsofRow>)
    ensures
        match r {
            Some(row) => lsof_row(line@, port) == Some(row@),
            None => lsof_row(line@, port) is None,
        },
{
    let ws = split_words(line);
    let ghost all = words(line@);
    let kind = find_type(&ws);
    let number = find_number(&ws);
    if kind >= ws.len() || ws.len() - kind <= 3 || number >= kind || kind - number <= 2 {
        return None;
    }
    let name = join_spaced(ws.as_slice(), kind + 3, ws.len());
    assert(all.subrange(kind + 3, all.len() as int) == all.skip(kind + 3));
    assert(all[number as int] == ws@[number as int]@);
    let pid = match parse_number(ws[number], 10, 0xffff_ffff) {
        Some(pid) => pid,
        None => {
            return None;
        },
    };
    let name_chars = chars_of(name.as_str());
    let mark = mark_of(port);
    if !has_part(name_chars.as_slice(), mark.as_slice()) {
        return None;
    }
    let command = join_spaced(ws.as_slice(), 0, number);
    assert(all.subrange(0, number as int) == all.take(number as int));
    let user = join_spaced(ws.as_slice(), number + 1, kind - 1);
    Some(LsofRow { command, pid: pid as u32, user: Some(user), name })
}

/// The rows in what `lsof` wrote for sockets that listen on `port`. The heading and
/// every other line are skipped.
pub fn parse_lsof_listen(output: &str, port: u16) -> (r: Vec<LsofRow>)
    ensures
        row_views(r@) == listeners(output@, port),
{
    let chars = chars_of(output);
    let ls = split_lines(chars.as_slice());
    let ghost all = lines(output@);
    let ghost rest = body(all);
    let mut out: Vec<LsofRow> = Vec::new();
    let mut i: usize = 1;
    assert(rest.take(0) == Seq::<Seq<char>>::empty());
    if ls.len() == 0 {
        return out;
    }
    while i < ls.len()
        invariant
            1 <= i <= ls@.len(),
            all == views(ls@),
            rest == all.skip(1),
            row_views(out@) == lsof_rows(rest.take(i - 1), port),
        decreases ls@.len() - i,
    {
        let ghost before = row_views(out@);
        proof {
            assert(rest.take(i as int).drop_last() == rest.take(i - 1));
            assert(rest.take(i as int).last() == ls@[i as int]@);
        }
        if let Some(row) = parse_lsof_line(ls[i], port) {
            out.push(row);
            assert(row_views(out@) == before.push(row@));
        }
        i += 1;
    }
    assert(rest.take(rest.len() as int) == rest);
    out
}

/// Whether a line of `netstat` shows a socket that listens on `port`: the protocol
/// is one of TCP, the state is `LISTEN`, and the local address ends with a dot and
/// the port.
pub open spec fn netstat_listens(line: Seq<char>, port: u16) -> bool {
    let ws = words(line);
    &&& ws.len() >= 5
    &&& starts_with(ws[0], "tcp"@)
    &&& ws.last() == "LISTEN"@
    &&& ends_with(ws[3], "."@ + dec(port as nat))
}

/// Whether what `netstat` wrote shows a socket that listens on `port`.
pub open spec fn netstat_shows(output: Seq<char>, port: u16) -> bool {
    exists|i: int|
        0 <= i < lines(output).len() && netstat_listens(#[trigger] lines(output)[i], port)
}

/// Whether what `netstat` wrote shows a socket that listens on `port`.
pub fn parse_mac_netstat_listening(output: &str, port: u16) -> (r: bool)
    ensures
        r == netstat_shows(output@, port),
{
    let mut suffix = String::new();
    suffix.append(".");
    suffix.append(decimal(port as u64).as_str());
    let suffix = chars_of(suffix.as_str());
    let chars = chars_of(output);
    let ls = split_lines(chars.as_slice());
    let ghost all = lines(output@);
    let mut i: usize = 0;
    while i < ls.len()
        invariant
            i <= ls@.len(),
            all == views(ls@),
            all == lines(output@),
            suffix@ == "."@ + dec(port as nat),
            forall|k: int| 0 <= k < i ==> !netstat_listens(#[trigger] all[k], port),
        decreases ls@.len() - i,
    {
        let ws = split_words(ls[i]);
        proof {
            assert(all[i as int] == ls@[i as int]@);
            assert(views(ws@).len() == ws@.len());
        }
        if ws.len() >= 5 {
            proof {
                let shown = words(all[i as int]);
                assert(shown[0] == ws@[0]@);
                assert(shown[3] == ws@[3]@);
                assert(shown.last() == ws@[ws@.len() - 1]@);
            }
            if has_prefix(ws[0], "tcp") && same_text(ws[ws.len() - 1], "LISTEN") && has_suffix(
                ws[3],
                suffix.as_slice(),
            ) {
                assert(netstat_listens(all[i as int], port));
                return true;
            }
        }
        i += 1;
    }
    false
}

/// What is known of the process of a row.
pub open spec fn row_info(row: LsofRowView) -> ProcessInfoView {
    ProcessInfoView {
        pid: row.pid,
        name: row.command,
        command: None,
        user: row.user,
        uptime_secs: None,
        cwd: None,
    }
}

/// What is known of the process of a row.
pub fn process_from_row(row: LsofRow) -> (r: ProcessInfo)
    ensures
        r@ == row_info(row@),
{
    ProcessInfo {
        pid: row.pid,
        name: row.command,
        command: None,
        user: row.user,
        uptime_secs: None,
        cwd: None,
    }
}

/// The processes of some rows, each once.
pub open spec fn row_processes(rows: Seq<LsofRowView>) -> Seq<ProcessInfoView> {
    first_of_each(rows.map_values(|r: LsofRowView| row_info(r)))
}

// ---------------------------------------------------------------------------
// Asking the system
// ---------------------------------------------------------------------------

/// The commands that are run.
pub trait MacCommands {
    /// Run `lsof -n -P -iTCP:<port> -sTCP:LISTEN`.
    fn lsof(&self, port: u16) -> CommandReply;

    /// Run `netstat -an -p tcp`.
    fn netstat(&self) -> CommandReply;
}

/// What `lsof` wrote. It ends with exit code 1 when there is nothing to show.
pub open spec fn lsof_output(reply: CommandReply) -> Result<Seq<char>, AppErrorView> {
    command_output("lsof"@, reply, true)
}

/// What `netstat` wrote.
pub open spec fn netstat_output(reply: CommandReply) -> Result<Seq<char>, AppErrorView> {
    command_output("netstat"@, reply, false)
}

/// Whether a port for which `lsof` shows nothing is free, given what `netstat`
/// answers: it is not if `netstat` shows a listener, which is then hidden.
pub open spec fn not_hidden(port: u16, reply: CommandReply) -> Result<(), AppErrorView> {
    match netstat_output(reply) {
        Err(e) => Err(e),
        Ok(text) => if netstat_shows(text, port) {
            Err(AppErrorView::AccessDenied { port })
        } else {
            Ok(())
        },
    }
}

/// See that a port for which `lsof` shows nothing is not occupied by a process that
/// is hidden.
pub fn ensure_not_hidden<C: MacCommands + ?Sized>(port: u16, commands: &C) -> (r: Result<
    (),
    AppError,
>)
    ensures
        exists|reply: CommandReply| #[trigger]
            call_ensures(C::netstat, (commands,), reply) && match r {
                Ok(()) => not_hidden(port, reply) is Ok,
                Err(e) => not_hidden(port, reply) == Err::<(), AppErrorView>(e@),
            },
{
    let reply = commands.netstat();
    match output_of("netstat", reply, false) {
        Err(e) => Err(e),
        Ok(text) => {
            if parse_mac_netstat_listening(text.as_str(), port) {
                Err(AppError::AccessDenied { port })
            } else {
                Ok(())
            }
        },
    }
}

/// What is found on a port, given what `lsof` and `netstat` answer. The answer of
/// `netstat` counts only if `lsof` shows nothing.
pub open spec fn found(port: u16, lsof: CommandReply, netstat: CommandReply) -> Result<
    Seq<ProcessInfoView>,
    AppErrorView,
> {
    match lsof_output(lsof) {
        Err(e) => Err(e),
        Ok(text) => if listeners(text, port).len() > 0 {
            Ok(row_processes(listeners(text, port)))
        } else {
            match not_hidden(port, netstat) {
                Err(e) => Err(e),
                Ok(()) => Ok(Seq::empty()),
            }
        },
    }
}

/// The processes of some rows, each once.
fn processes_of(rows: Vec<LsofRow>) -> (r: Vec<ProcessInfo>)
    ensures
        infos(r@) == row_processes(row_views(rows@)),
{
    let mut processes: Vec<ProcessInfo> = Vec::new();
    let mut i: usize = 0;
    while i < rows.len()
        invariant
            i <= rows@.len(),
            processes@.len() == i,
            forall|k: int| 0 <= k < i ==> (#[trigger] processes@[k])@ == row_info(rows@[k]@),
        decreases rows@.len() - i,
    {
        let row = LsofRow {
            command: rows[i].command.clone(),
            pid: rows[i].pid,
            user: clone_text(&rows[i].user),
            name: rows[i].name.clone(),
        };
        processes.push(process_from_row(row));
        i += 1;
    }
    assert(infos(processes@) =~= row_views(rows@).map_values(|r: LsofRowView| row_info(r)));
    dedup_by_pid(processes)
}

/// Whether `netstat` has to be asked: `lsof` shows nothing.
pub open spec fn netstat_needed(port: u16, lsof: CommandReply) -> bool {
    match lsof_output(lsof) {
        Err(_) => false,
        Ok(text) => listeners(text, port).len() == 0,
    }
}

/// Whether these are answers of the commands. `netstat` is run only if it has to be
/// asked.
pub open spec fn told<C: MacCommands + ?Sized>(
    commands: &C,
    port: u16,
    lsof: CommandReply,
    netstat: CommandReply,
) -> bool {
    &&& call_ensures(C::lsof, (commands, port), lsof)
    &&& netstat_needed(port, lsof) ==> call_ensures(C::netstat, (commands,), netstat)
}

/// The processes that listen on `port`, each once.
pub fn get_processes_on_port<C: MacCommands + ?Sized>(port: u16, commands: &C) -> (r: Result<
    Vec<ProcessInfo>,
    AppError,
>)
    ensures
        exists|lsof: CommandReply, netstat: CommandReply| #[trigger]
            told(commands, port, lsof, netstat) && match r {
                Ok(processes) => found(port, lsof, netstat) == Ok::<
                    Seq<ProcessInfoView>,
                    AppErrorView,
                >(infos(processes@)),
                Err(e) => found(port, lsof, netstat) == Err::<Seq<ProcessInfoView>, AppErrorView>(
                    e@,
                ),
            },
{
    let reply = commands.lsof(port);
    let ghost lsof = reply;
    match output_of("lsof", reply, true) {
        Err(e) => {
            assert(told(commands, port, lsof, lsof));
            Err(e)
        },
        Ok(text) => {
            let rows = parse_lsof_listen(text.as_str(), port);
            assert(row_views(rows@).len() == rows@.len());
            if rows.len() > 0 {
                assert(told(commands, port, lsof, lsof));
                return Ok(processes_of(rows));
            }
            let hidden = ensure_not_hidden(port, commands);
            let ghost netstat = choose|reply: CommandReply| #[trigger]
                call_ensures(C::netstat, (commands,), reply) && match hidden {
                    Ok(()) => not_hidden(port, reply) is Ok,
                    Err(e) => not_hidden(port, reply) == Err::<(), AppErrorView>(e@),
                };
            assert(told(commands, port, lsof, netstat));
            match hidden {
                Err(e) => Err(e),
                Ok(()) => {
                    let none: Vec<ProcessInfo> = Vec::new();
                    assert(infos(none@) =~= Seq::<ProcessInfoView>::empty());
                    Ok(none)
                },
            }
        },
    }
}

/// Whether a port is free, given what `lsof` and `netstat` answer.
pub open spec fn free(port: u16, lsof: CommandReply, netstat: CommandReply) -> Result<
    bool,
    AppErrorView,
> {
    match lsof_output(lsof) {
        Err(e) => Err(e),
        Ok(text) => if listeners(text, port).len() > 0 {
            Ok(false)
        } else {
            match not_hidden(port, netstat) {
                Err(e) => Err(e),
                Ok(()) => Ok(true),
            }
        },
    }
}

/// Whether nothing listens on `port`.
pub fn is_port_free<C: MacCommands + ?Sized>(port: u16, commands: &C) -> (r: Result<bool, AppError>)
    ensures
        exists|lsof: CommandReply, netstat: CommandReply| #[trigger]
            told(commands, port, lsof, netstat) && match r {
                Ok(nothing) => free(port, lsof, netstat) == Ok::<bool, AppErrorView>(nothing),
                Err(e) => free(port, lsof, netstat) == Err::<bool, AppErrorView>(e@),
            },
{
    let reply = commands.lsof(port);
    let ghost lsof = reply;
    match output_of("lsof", reply, true) {
        Err(e) => {
            assert(told(commands, port, lsof, lsof));
            Err(e)
        },
        Ok(text) => {
            let rows = parse_lsof_listen(text.as_str(), port);
            assert(row_views(rows@).len() == rows@.len());
            if rows.len() > 0 {
                assert(told(commands, port, lsof, lsof));
                return Ok(false);
            }
            let hidden = ensure_not_hidden(port, commands);
            let ghost netstat = choose|reply: CommandReply| #[trigger]
                call_ensures(C::netstat, (commands,), reply) && match hidden {
                    Ok(()) => not_hidden(port, reply) is Ok,
                    Err(e) => not_hidden(port, reply) == Err::<(), AppErrorView>(e@),
                };
            assert(told(commands, port, lsof, netstat));
            match hidden {
                Err(e) => Err(e),
                Ok(()) => Ok(true),
            }
        },
    }
}

/// A port is called free exactly when no process is found on it and nothing went
/// wrong; what goes wrong is the same for both questions.
pub proof fn law_free_means_nothing_found(port: u16, lsof: CommandReply, netstat: CommandReply)
    ensures
        free(port, lsof, netstat) == match found(port, lsof, netstat) {
            Ok(processes) => Ok::<bool, AppErrorView>(processes.len() == 0),
            Err(e) => Err(e),
        },
{
    if let Ok(text) = lsof_output(lsof) {
        let rows = listeners(text, port);
        if rows.len() > 0 {
            let processes = rows.map_values(|r: LsofRowView| row_info(r));
            assert(processes[0].pid == rows[0].pid);
            law_dedup_loses_none(processes, rows[0].pid);
        }
    }
}

/// A port that `netstat` shows is never called free, nor found to have no
/// processes.
pub proof fn law_hidden_is_not_free(
    port: u16,
    lsof: CommandReply,
    netstat: CommandReply,
    text: Seq<char>,
)
    requires
        netstat_output(netstat) == Ok::<Seq<char>, AppErrorView>(text),
        netstat_shows(text, port),
    ensures
        free(port, lsof, netstat) != Ok::<bool, AppErrorView>(true),
        found(port, lsof, netstat) != Ok::<Seq<ProcessInfoView>, AppErrorView>(Seq::empty()),
{
    law_free_means_nothing_found(port, lsof, netstat);
}

/// A local address is one of a single port.
pub proof fn law_address_has_one_port(address: Seq<char>, port: u16, other: u16)
    requires
        ends_with(address, "."@ + dec(port as nat)),
        ends_with(address, "."@ + dec(other as nat)),
    ensures
        port == other,
{
    reveal_strlit(".");
    lemma_dec(port as nat);
    lemma_dec(other as nat);
    let a = dec(port as nat);
    let b = dec(other as nat);
    let n = address.len();
    let tail_a = address.skip(n - 1 - a.len());
    let tail_b = address.skip(n - 1 - b.len());
    if a.len() < b.len() {
        assert(tail_a[0] == '.');
        assert(tail_a[0] == tail_b[b.len() - a.len()]);
        assert(tail_b[b.len() - a.len()] == b[b.len() - a.len() - 1]);
        assert(digit(b[b.len() - a.len() - 1]) < 10);
    } else if b.len() < a.len() {
        assert(tail_b[0] == '.');
        assert(tail_b[0] == tail_a[a.len() - b.len()]);
        assert(tail_a[a.len() - b.len()] == a[a.len() - b.len() - 1]);
        assert(digit(a[a.len() - b.len() - 1]) < 10);
    } else {
        assert(a =~= tail_a.skip(1));
        assert(b =~= tail_b.skip(1));
    }
}

/// The name of a listener is one of a single port: a row for port 8080 is none for
/// port 80.
pub proof fn law_listener_has_one_port(host: Seq<char>, port: u16, other: u16)
    requires
        forall|i: int| 0 <= i < host.len() ==> host[i] != '(',
    ensures
        occurs(host + port_mark(port), port_mark(other)) <==> port == other,
{
    reveal_strlit(":");
    reveal_strlit(" (LISTEN)");
    lemma_dec(port as nat);
    lemma_dec(other as nat);
    let a = dec(port as nat);
    let b = dec(other as nat);
    let mark = port_mark(port);
    let sought = port_mark(other);
    let name = host + mark;
    if port == other {
        assert(name.subrange(host.len() as int, (host.len() + mark.len()) as int) =~= mark);
        assert(occurs_at(name, sought, host.len() as int));
    }
    if occurs(name, sought) {
        let i = choose|i: int| occurs_at(name, sought, i);
        let at = name.subrange(i, i + sought.len());
        // The only bracket of the name is the one behind its port.
        assert(sought[b.len() as int + 2] == '(');
        assert(name[i + b.len() + 2] == at[b.len() as int + 2]);
        let k = i + b.len() + 2 - host.len();
        assert(k >= 0);
        assert(mark[k] == '(');
        if k < a.len() + 2 {
            if 1 <= k <= a.len() {
                assert(mark[k] == a[k - 1]);
                assert(digit(a[k - 1]) < 10);
            }
        }
        assert(k == a.len() + 2);
        // So the ports end at the same place, and begin behind a colon.
        if b.len() < a.len() {
            assert(at[0] == ':' && at[0] == name[i]);
            assert(name[i] == mark[a.len() - b.len()]);
            assert(mark[a.len() - b.len()] == a[a.len() - b.len() - 1]);
            assert(digit(a[a.len() - b.len() - 1]) < 10);
        } else if a.len() < b.len() {
            assert(name[host.len() as int] == ':');
            assert(at[b.len() - a.len()] == name[host.len() as int]);
            assert(at[b.len() - a.len()] == b[b.len() - a.len() - 1]);
            assert(digit(b[b.len() - a.len() - 1]) < 10);
        } else {
            assert forall|m: int| 0 <= m < a.len() implies a[m] == b[m] by {
                assert(name[i + 1 + m] == at[1 + m]);
                assert(at[1 + m] == b[m]);
                assert(name[host.len() + 1 + m] == a[m]);
            }
            assert(a =~= b);
        }
    }
}

/// The rows in some lines and some more are those in both, one after the other.
pub proof fn lemma_rows_concat(a: Seq<Seq<char>>, b: Seq<Seq<char>>, port: u16)
    ensures
        lsof_rows(a + b, port) == lsof_rows(a, port) + lsof_rows(b, port),
    decreases b.len(),
{
    if b.len() == 0 {
        assert(a + b =~= a);
        assert(lsof_rows(a, port) + lsof_rows(b, port) =~= lsof_rows(a, port));
    } else {
        lemma_rows_concat(a, b.drop_last(), port);
        assert((a + b).drop_last() =~= a + b.drop_last());
        assert(lsof_rows(a + b, port) =~= lsof_rows(a, port) + lsof_rows(b, port));
    }
}

/// A line that holds no row, wherever it stands, changes nothing.
pub proof fn law_other_lines_are_skipped(
    before: Seq<Seq<char>>,
    line: Seq<char>,
    after: Seq<Seq<char>>,
    port: u16,
)
    requires
        lsof_row(line, port) is None,
    ensures
        lsof_rows(before + seq![line] + after, port) == lsof_rows(before + after, port),
{
    lemma_rows_concat(before + seq![line], after, port);
    lemma_rows_concat(before, seq![line], port);
    lemma_rows_concat(before, after, port);
    assert(seq![line].drop_last() =~= Seq::<Seq<char>>::empty());
    assert(lsof_rows(Seq::<Seq<char>>::empty(), port) =~= Seq::<LsofRowView>::empty());
    assert(lsof_rows(seq![line], port) =~= Seq::<LsofRowView>::empty());
    assert(lsof_rows(before, port) + Seq::<LsofRowView>::empty() =~= lsof_rows(before, port));
}

} // verus!

//! What `lsof` and `netstat` write, and what is found by it.

use vstd::prelude::*;

use crate::error::AppErrorView;
use crate::platform::laws::law_dedup_adds_none;
use crate::platform::macos::{
    body, first_word, found, free, is_numeric, is_socket_type, lemma_first_word, listeners,
    lsof_output, lsof_row, lsof_rows, netstat_listens, netstat_shows, port_mark, row_info,
    LsofRowView,
};
use crate::platform::{
    first_of_each, law_dedup_is_distinct, law_dedup_loses_none, listed, CommandReply,
};
use crate::process::ProcessInfoView;
use crate::text::laws::{law_join, law_parse, law_part_occurs};
use crate::text::{dec, decoded, digit, join, lemma_dec, lines, occurs, parse, words};

verus! {

// ---------------------------------------------------------------------------
// netstat
// ---------------------------------------------------------------------------

/// A line of at least five words, of which the first begins with `tcp`, the last is
/// `LISTEN` and the fourth is a host, a dot and the port, shows the port, wherever it
/// stands.
pub proof fn law_netstat_line_shows(
    output: Seq<char>,
    k: int,
    family: Seq<char>,
    host: Seq<char>,
    port: u16,
)
    requires
        0 <= k < lines(output).len(),
        words(lines(output)[k]).len() >= 5,
        words(lines(output)[k])[0] == "tcp"@ + family,
        words(lines(output)[k])[3] == host + "."@ + dec(port as nat),
        words(lines(output)[k]).last() == "LISTEN"@,
    ensures
        netstat_shows(output, port),
{
    let ws = words(lines(output)[k]);
    assert(ws[0].take("tcp"@.len() as int) =~= "tcp"@);
    let suffix = "."@ + dec(port as nat);
    assert(ws[3] =~= host + suffix);
    assert(ws[3].skip(host.len() as int) =~= suffix);
    assert(netstat_listens(lines(output)[k], port));
}

/// Only such a line does.
pub proof fn law_netstat_shows_by_a_line(output: Seq<char>, port: u16) -> (k: int)
    requires
        netstat_shows(output, port),
    ensures
        0 <= k < lines(output).len(),
        words(lines(output)[k]).len() >= 5,
        words(lines(output)[k])[0].take(3) == "tcp"@,
        words(lines(output)[k]).last() == "LISTEN"@,
        exists|host: Seq<char>|
            words(lines(output)[k])[3] == #[trigger] (host + "."@ + dec(port as nat)),
{
    reveal_strlit("tcp");
    let k = choose|k: int|
        0 <= k < lines(output).len() && netstat_listens(#[trigger] lines(output)[k], port);
    let ws = words(lines(output)[k]);
    let suffix = "."@ + dec(port as nat);
    let host = ws[3].take(ws[3].len() - suffix.len());
    assert(ws[3].skip(ws[3].len() - suffix.len()) == suffix);
    assert(ws[3] =~= host + ws[3].skip(ws[3].len() - suffix.len()));
    assert(host + suffix =~= host + "."@ + dec(port as nat));
    k
}

// ---------------------------------------------------------------------------
// lsof
// ---------------------------------------------------------------------------

/// Whether the word holds something else than decimal digits.
pub open spec fn is_no_number(word: Seq<char>) -> bool {
    exists|j: int| 0 <= j < word.len() && !('0' <= #[trigger] word[j] <= '9')
}

/// A line of `lsof` about a listener is read column by column, however many words the
/// command, the user and the name have.
pub proof fn law_lsof_columns(
    line: Seq<char>,
    command: Seq<Seq<char>>,
    pid: u32,
    user: Seq<Seq<char>>,
    place: Seq<Seq<char>>,
    name: Seq<Seq<char>>,
    port: u16,
)
    requires
        words(line) =~= command + seq![dec(pid as nat)] + user + place + name,
        user.len() > 0,
        place.len() == 4,
        place[1] == "IPv4"@ || place[1] == "IPv6"@,
        place[0] != "IPv4"@ && place[0] != "IPv6"@,
        name.len() > 0,
        forall|i: int|
            0 <= i < user.len() ==> #[trigger] user[i] != "IPv4"@ && user[i] != "IPv6"@,
        forall|i: int|
            0 <= i < command.len() ==> #[trigger] command[i] != "IPv4"@ && command[i] != "IPv6"@,
        forall|i: int| 0 <= i < command.len() ==> is_no_number(#[trigger] command[i]),
    ensures
        occurs(join(name, seq![' ']), ":"@ + dec(port as nat) + " (LISTEN)"@) ==> lsof_row(
            line,
            port,
        ) == Some(
            LsofRowView {
                command: join(command, seq![' ']),
                pid,
                user: Some(join(user, seq![' '])),
                name: join(name, seq![' ']),
            },
        ),
        !occurs(join(name, seq![' ']), ":"@ + dec(port as nat) + " (LISTEN)"@) ==> lsof_row(
            line,
            port,
        ) is None,
{
    let ws = words(line);
    let number = command.len() as int;
    let at = number + 1 + user.len() + 1;
    lemma_lsof_places(ws, command, dec(pid as nat), user, place, name, number, at - 1);
    lemma_dec(pid as nat);
    lemma_not_a_type(dec(pid as nat));
    let is_kind = |w: Seq<char>| is_socket_type(w);
    let is_number = |w: Seq<char>| is_numeric(w);
    assert forall|i: int| 0 <= i < at implies !is_kind(#[trigger] ws[i]) by {
        if i < number {
            assert(ws[i] == command[i]);
        } else if i == number {
        } else if i < at - 1 {
            assert(ws[i] == user[i - number - 1]);
        } else {
            assert(ws[i] == place[0]);
        }
    }
    lemma_first_word(ws, is_kind, at);
    assert forall|i: int| 0 <= i < number implies !is_number(#[trigger] ws[i]) by {
        assert(ws[i] == command[i]);
        let word = command[i];
        assert(is_no_number(word));
        let j = choose|j: int| 0 <= j < word.len() && !('0' <= #[trigger] word[j] <= '9');
        assert(digit(word[j]) >= 10);
    }
    assert(is_numeric(ws[number]));
    lemma_first_word(ws, is_number, number);
    law_parse(Seq::empty(), pid as nat, u32::MAX as nat, 10);
}

/// A line with a node, a host, a port and a state tells all of its columns.
pub proof fn law_lsof_line(
    line: Seq<char>,
    command: Seq<Seq<char>>,
    pid: u32,
    user: Seq<Seq<char>>,
    place: Seq<Seq<char>>,
    node: Seq<char>,
    host: Seq<char>,
    port: u16,
)
    requires
        words(line) =~= command + seq![dec(pid as nat)] + user + place + seq![
            node,
            host + ":"@ + dec(port as nat),
            "(LISTEN)"@,
        ],
        user.len() > 0,
        place.len() == 4,
        place[1] == "IPv4"@ || place[1] == "IPv6"@,
        place[0] != "IPv4"@ && place[0] != "IPv6"@,
        forall|i: int|
            0 <= i < user.len() ==> #[trigger] user[i] != "IPv4"@ && user[i] != "IPv6"@,
        forall|i: int|
            0 <= i < command.len() ==> #[trigger] command[i] != "IPv4"@ && command[i] != "IPv6"@,
        forall|i: int| 0 <= i < command.len() ==> is_no_number(#[trigger] command[i]),
    ensures
        lsof_row(line, port) == Some(
            LsofRowView {
                command: join(command, seq![' ']),
                pid,
                user: Some(join(user, seq![' '])),
                name: node + seq![' '] + (host + ":"@ + dec(port as nat)) + seq![' ']
                    + "(LISTEN)"@,
            },
        ),
{
    let name = seq![node, host + ":"@ + dec(port as nat), "(LISTEN)"@];
    lemma_lsof_name(node, host, port);
    law_lsof_columns(line, command, pid, user, place, name, port);
}

proof fn lemma_lsof_places(
    ws: Seq<Seq<char>>,
    command: Seq<Seq<char>>,
    number: Seq<char>,
    user: Seq<Seq<char>>,
    place: Seq<Seq<char>>,
    tail: Seq<Seq<char>>,
    n: int,
    m: int,
)
    requires
        ws == command + seq![number] + user + place + tail,
        place.len() == 4,
        n == command.len(),
        m == n + 1 + user.len(),
    ensures
        ws.len() == m + 4 + tail.len(),
        ws[n] == number,
        ws[m] == place[0],
        ws[m + 1] == place[1],
        forall|i: int| 0 <= i < command.len() ==> ws[i] == #[trigger] command[i],
        forall|i: int|
            n < i < m ==> #[trigger] ws[i] == user[i - n - 1],
        ws.take(n) == command,
        ws.subrange(n + 1, m) == user,
        ws.skip(m + 4) == tail,
{
    assert(ws.take(n) =~= command);
    assert(ws.subrange(n + 1, m) =~= user);
    assert(ws.skip(m + 4) =~= tail);
}

proof fn lemma_lsof_name(node: Seq<char>, host: Seq<char>, port: u16)
    ensures
        ({
            let address = host + ":"@ + dec(port as nat);
            let name = node + seq![' '] + address + seq![' '] + "(LISTEN)"@;
            &&& join(seq![node, address, "(LISTEN)"@], seq![' ']) == name
            &&& occurs(name, port_mark(port))
        }),
{
    let address = host + ":"@ + dec(port as nat);
    let tail = seq![node, address, "(LISTEN)"@];
    let space = seq![' '];
    law_join(seq![node, address], "(LISTEN)"@, space);
    law_join(seq![node], address, space);
    law_join(Seq::empty(), node, space);
    assert(seq![node, address].push("(LISTEN)"@) =~= tail);
    assert(seq![node].push(address) =~= seq![node, address]);
    let name = node + space + address + space + "(LISTEN)"@;
    lemma_state();
    lemma_mark_at_end(node + space, host, ":"@, dec(port as nat), space, "(LISTEN)"@);
}

proof fn lemma_state()
    ensures
        " (LISTEN)"@ == seq![' '] + "(LISTEN)"@,
{
    reveal_strlit("(LISTEN)");
    reveal_strlit(" (LISTEN)");
    assert(" (LISTEN)"@ =~= seq![' '] + "(LISTEN)"@);
}

proof fn lemma_mark_at_end(
    before: Seq<char>,
    host: Seq<char>,
    colon: Seq<char>,
    number: Seq<char>,
    space: Seq<char>,
    state: Seq<char>,
)
    ensures
        occurs(
            before + (host + colon + number) + space + state,
            colon + number + (space + state),
        ),
{
    let mark = colon + number + (space + state);
    law_part_occurs(before + host, mark, Seq::empty());
    let short = before + (host + colon + number);
    lemma_regrouped(host, colon, number);
    lemma_regrouped(before, host, colon + number);
    lemma_regrouped(short, space, state);
    lemma_regrouped(before + host, colon + number, space + state);
    assert(before + host + mark + Seq::<char>::empty() =~= before + host + mark);
}

proof fn lemma_regrouped(a: Seq<char>, b: Seq<char>, c: Seq<char>)
    ensures
        a + b + c == a + (b + c),
{
    assert(a + b + c =~= a + (b + c));
}

proof fn lemma_not_a_type(word: Seq<char>)
    requires
        word.len() > 0,
        digit(word[0]) < 10,
    ensures
        word != "IPv4"@ && word != "IPv6"@,
{
    reveal_strlit("IPv4");
    reveal_strlit("IPv6");
}

/// A row says nothing but what stands in its line: a number that is a word of the line, a
/// network socket three words behind it at least, and a name that listens on the port.
pub proof fn law_lsof_row_is_read(line: Seq<char>, port: u16, row: LsofRowView) -> (at: (int, int))
    requires
        lsof_row(line, port) == Some(row),
    ensures
        0 <= at.0 < at.0 + 2 < at.1 < at.1 + 3 < words(line).len(),
        words(line)[at.1] == "IPv4"@ || words(line)[at.1] == "IPv6"@,
        forall|i: int|
            0 <= i < at.1 ==> #[trigger] words(line)[i] != "IPv4"@ && words(line)[i] != "IPv6"@,
        parse(words(line)[at.0], 10, 0xffff_ffff) == Some(row.pid as nat),
        row.command == join(words(line).take(at.0), seq![' ']),
        row.user == Some(join(words(line).subrange(at.0 + 1, at.1 - 1), seq![' '])),
        row.name == join(words(line).skip(at.1 + 3), seq![' ']),
        occurs(row.name, ":"@ + dec(port as nat) + " (LISTEN)"@),
{
    let ws = words(line);
    let is_kind = |w: Seq<char>| is_socket_type(w);
    let is_number = |w: Seq<char>| is_numeric(w);
    let kind = first_word(ws, is_kind);
    let number = first_word(ws, is_number);
    lemma_first(ws, is_kind);
    lemma_first(ws, is_number);
    assert(is_kind(ws[kind]));
    assert forall|i: int| 0 <= i < kind implies #[trigger] ws[i] != "IPv4"@ && ws[i]
        != "IPv6"@ by {
        assert(!is_kind(ws[i]));
    }
    (number, kind)
}

proof fn lemma_first(ws: Seq<Seq<char>>, f: spec_fn(Seq<char>) -> bool)
    ensures
        0 <= first_word(ws, f) <= ws.len(),
        first_word(ws, f) < ws.len() ==> f(ws[first_word(ws, f)]),
        forall|i: int| 0 <= i < first_word(ws, f) ==> !f(#[trigger] ws[i]),
    decreases ws.len(),
{
    if ws.len() > 0 && !f(ws[0]) {
        let rest = ws.skip(1);
        lemma_first(rest, f);
        assert forall|i: int| 0 <= i < first_word(ws, f) implies !f(#[trigger] ws[i]) by {
            if i > 0 {
                assert(rest[i - 1] == ws[i]);
            }
        }
        if first_word(ws, f) < ws.len() {
            assert(rest[first_word(rest, f)] == ws[first_word(ws, f)]);
        }
    }
}

proof fn lemma_rows(ls: Seq<Seq<char>>, port: u16, row: LsofRowView)
    ensures
        (exists|k: int| 0 <= k < ls.len() && lsof_row(#[trigger] ls[k], port) == Some(row)) <==> (
        exists|i: int|
            0 <= i < lsof_rows(ls, port).len() && #[trigger] lsof_rows(ls, port)[i] == row),
    decreases ls.len(),
{
    let all = lsof_rows(ls, port);
    if ls.len() > 0 {
        let front = ls.drop_last();
        let before = lsof_rows(front, port);
        lemma_rows(front, port, row);
        if exists|k: int| 0 <= k < ls.len() && lsof_row(#[trigger] ls[k], port) == Some(row) {
            let k = choose|k: int| 0 <= k < ls.len() && lsof_row(#[trigger] ls[k], port) == Some(row);
            if k < front.len() {
                assert(lsof_row(front[k], port) == Some(row));
                let i = choose|i: int| 0 <= i < before.len() && #[trigger] before[i] == row;
                assert(all[i] == row);
            } else {
                assert(all[all.len() - 1] == row);
            }
        }
        if exists|i: int| 0 <= i < all.len() && #[trigger] all[i] == row {
            let i = choose|i: int| 0 <= i < all.len() && #[trigger] all[i] == row;
            if i < before.len() {
                assert(before[i] == row);
                let k = choose|k: int|
                    0 <= k < front.len() && lsof_row(#[trigger] front[k], port) == Some(row);
                assert(ls[k] == front[k]);
            } else {
                assert(lsof_row(ls[ls.len() - 1], port) == Some(row));
            }
        }
    }
}

/// What is listed are the rows of the lines after the heading.
pub proof fn law_listeners(output: Seq<char>, port: u16, row: LsofRowView)
    ensures
        listeners(output, port).contains(row) <==> exists|k: int|
            1 <= k < lines(output).len() && lsof_row(#[trigger] lines(output)[k], port) == Some(
                row,
            ),
{
    let ls = lines(output);
    let rest = body(ls);
    lemma_rows(rest, port, row);
    if exists|k: int| 1 <= k < ls.len() && lsof_row(#[trigger] ls[k], port) == Some(row) {
        let k = choose|k: int| 1 <= k < ls.len() && lsof_row(#[trigger] ls[k], port) == Some(row);
        assert(rest[k - 1] == ls[k]);
    }
    if listeners(output, port).contains(row) {
        let k = choose|k: int| 0 <= k < rest.len() && lsof_row(#[trigger] rest[k], port) == Some(row);
        assert(ls[k + 1] == rest[k]);
    }
}

// ---------------------------------------------------------------------------
// What is found
// ---------------------------------------------------------------------------

/// Whatever a line of `lsof` after its heading tells is found, whatever `netstat` says;
/// each process once.
pub proof fn law_listeners_are_found(
    port: u16,
    stdout: Vec<u8>,
    stderr: Vec<u8>,
    netstat: CommandReply,
    k: int,
    row: LsofRowView,
)
    requires
        1 <= k < lines(decoded(stdout@)).len(),
        lsof_row(lines(decoded(stdout@))[k], port) == Some(row),
    ensures
        free(port, CommandReply::Ended { code: Some(0), stdout, stderr }, netstat) == Ok::<
            bool,
            AppErrorView,
        >(false),
        found(port, CommandReply::Ended { code: Some(0), stdout, stderr }, netstat) matches Ok(
            processes,
        ) && {
            &&& exists|i: int| 0 <= i < processes.len() && (#[trigger] processes[i]).pid == row.pid
            &&& forall|i: int, j: int|
                0 <= i < j < processes.len() ==> (#[trigger] processes[i]).pid != (
                #[trigger] processes[j]).pid
        },
{
    let text = decoded(stdout@);
    let rows = listeners(text, port);
    law_listeners(text, port, row);
    let i = choose|i: int| 0 <= i < rows.len() && rows[i] == row;
    let all = rows.map_values(|r: LsofRowView| row_info(r));
    assert(all[i].pid == row.pid);
    law_dedup_loses_none(all, row.pid);
    assert(listed(first_of_each(all), row.pid));
    assert forall|a: int, b: int| 0 <= a < b < first_of_each(all).len() implies (
    #[trigger] first_of_each(all)[a]).pid != (#[trigger] first_of_each(all)[b]).pid by {
        law_dedup_is_distinct(all, a, b);
    }
}

/// A process is found only by a line of `lsof`, and what is known of it is its number, its
/// command as its name, and its user.
pub proof fn law_found_is_listening(
    port: u16,
    stdout: Vec<u8>,
    stderr: Vec<u8>,
    netstat: CommandReply,
    processes: Seq<ProcessInfoView>,
    i: int,
) -> (k: int)
    requires
        found(port, CommandReply::Ended { code: Some(0), stdout, stderr }, netstat) == Ok::<
            Seq<ProcessInfoView>,
            AppErrorView,
        >(processes),
        0 <= i < processes.len(),
    ensures
        1 <= k < lines(decoded(stdout@)).len(),
        lsof_row(lines(decoded(stdout@))[k], port) matches Some(row) && {
            &&& processes[i].pid == row.pid
            &&& processes[i].name == row.command
            &&& processes[i].user == row.user
            &&& processes[i].command is None
            &&& processes[i].uptime_secs is None
            &&& processes[i].cwd is None
        },
{
    let text = decoded(stdout@);
    let rows = listeners(text, port);
    let all = rows.map_values(|r: LsofRowView| row_info(r));
    law_dedup_adds_none(all, i);
    let m = choose|m: int| 0 <= m < all.len() && all[m] == processes[i];
    let row = rows[m];
    law_listeners(text, port, row);
    choose|k: int|
        1 <= k < lines(text).len() && lsof_row(#[trigger] lines(text)[k], port) == Some(row)
}

/// Where `lsof` lists no listener, `netstat` decides: a port that it shows is held by a
/// process that is hidden, and access to it is denied; a port that it does not show is
/// free. Where `netstat` failed, so does the question.
pub proof fn law_netstat_decides(
    port: u16,
    lsof: CommandReply,
    text: Seq<char>,
    stdout: Vec<u8>,
    stderr: Vec<u8>,
    detail: String,
    code: Option<i32>,
)
    requires
        lsof_output(lsof) == Ok::<Seq<char>, AppErrorView>(text),
        forall|k: int|
            1 <= k < lines(text).len() ==> lsof_row(#[trigger] lines(text)[k], port) is None,
    ensures
        netstat_shows(decoded(stdout@), port) ==> found(
            port,
            lsof,
            CommandReply::Ended { code: Some(0), stdout, stderr },
        ) == Err::<Seq<ProcessInfoView>, AppErrorView>(AppErrorView::AccessDenied { port }),
        !netstat_shows(decoded(stdout@), port) ==> found(
            port,
            lsof,
            CommandReply::Ended { code: Some(0), stdout, stderr },
        ) == Ok::<Seq<ProcessInfoView>, AppErrorView>(Seq::empty()) && free(
            port,
            lsof,
            CommandReply::Ended { code: Some(0), stdout, stderr },
        ) == Ok::<bool, AppErrorView>(true),
        code != Some(0i32) ==> (found(
            port,
            lsof,
            CommandReply::Ended { code, stdout, stderr },
        ) matches Err(AppErrorView::OsCommandFailed { command, message: _ }) && command
            == "netstat"@),
        found(port, lsof, CommandReply::NotStarted { detail }) matches Err(
            AppErrorView::OsCommandFailed { command, message: _ },
        ) && command == "netstat"@,
{
    let rows = listeners(text, port);
    if rows.len() > 0 {
        let row = rows[0];
        assert(rows.contains(row));
        law_listeners(text, port, row);
        assert(false);
    }
}

/// `lsof` that ends with exit code 1 lists nothing; with any other but 0, or not at all, it
/// failed, and so does the question, whatever `netstat` says.
pub proof fn law_lsof_exit_code(
    port: u16,
    stdout: Vec<u8>,
    stderr: Vec<u8>,
    detail: String,
    code: Option<i32>,
    netstat: CommandReply,
)
    ensures
        lsof_output(CommandReply::Ended { code: Some(1), stdout, stderr }) == Ok::<
            Seq<char>,
            AppErrorView,
        >(Seq::empty()),
        code != Some(0i32) && code != Some(1i32) ==> (found(
            port,
            CommandReply::Ended { code, stdout, stderr },
            netstat,
        ) matches Err(AppErrorView::OsCommandFailed { command, message: _ }) && command
            == "lsof"@),
        found(port, CommandReply::NotStarted { detail }, netstat) matches Err(
            AppErrorView::OsCommandFailed { command, message: _ },
        ) && command == "lsof"@,
{
}

} // verus!

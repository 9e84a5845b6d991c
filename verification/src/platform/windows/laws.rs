//! What `netstat` writes, and what is found by it.

use vstd::prelude::*;

use crate::error::AppErrorView;
use crate::platform::laws::law_dedup_adds_none;
use crate::platform::windows::{
    address_port, found, free, netstat_row, netstat_rows, port_number, NetstatRow,
};
use crate::platform::{
    first_of_each, law_dedup_is_distinct, law_dedup_loses_none, listed, CommandReply,
};
use crate::process::{placeholder, ProcessInfoView};
use crate::text::laws::{law_after_last, law_parse, law_parse_refuses};
use crate::text::{
    dec, decoded, digit, find, lemma_dec, lemma_find, lines, lower, lowered, parse, words,
};

verus! {

/// An address is a host, a colon and the port; a host in square brackets may hold colons
/// of its own.
pub proof fn law_address(host: Seq<char>, port: u16)
    ensures
        host.len() == 0 || host[0] != '[' ==> address_port(host + seq![':'] + dec(port as nat))
            == Some(port),
        address_port(seq!['['] + host + seq![']'] + seq![':'] + dec(port as nat)) == Some(port),
{
    let d = dec(port as nat);
    lemma_dec(port as nat);
    assert forall|i: int| 0 <= i < d.len() implies d[i] != ':' && d[i] != ']' by {
        assert(digit(d[i]) < 10);
    }
    law_parse(Seq::empty(), port as nat, u16::MAX as nat, 10);
    assert(port_number(d) == Some(port));
    let plain = host + seq![':'] + d;
    law_after_last(host, ':', d);
    lemma_find(plain, ':');
    assert(plain[host.len() as int] == ':');
    assert(find(plain, ':') < plain.len()) by {
        if find(plain, ':') >= plain.len() {
            assert(plain[host.len() as int] != ':');
        }
    }
    let rest = seq![':'] + d;
    assert forall|i: int| 0 <= i < rest.len() implies rest[i] != ']' by {
        if i > 0 {
            assert(rest[i] == d[i - 1]);
        }
    }
    let bracketed = seq!['['] + host + seq![']'] + seq![':'] + d;
    law_after_last(seq!['['] + host, ']', rest);
    assert(bracketed =~= seq!['['] + host + seq![']'] + rest);
    assert(bracketed[0] == '[');
    assert(rest.skip(1) =~= d);
}

/// What follows the host of an address is the number of a port, or the address has none.
pub proof fn law_address_refuses(host: Seq<char>, tail: Seq<char>, i: int)
    requires
        host.len() == 0 || host[0] != '[',
        0 <= i < tail.len(),
        !('0' <= tail[i] <= '9'),
        i > 0 || tail[0] != '+',
        forall|j: int| 0 <= j < tail.len() ==> tail[j] != ':',
    ensures
        address_port(host + seq![':'] + tail) is None,
        address_port(host + seq![':']) is None,
        (forall|j: int| 0 <= j < host.len() ==> host[j] != ':') ==> address_port(host) is None,
{
    law_after_last(host, ':', tail);
    law_after_last(host, ':', Seq::empty());
    assert(host + seq![':'] + Seq::<char>::empty() =~= host + seq![':']);
    assert(digit(tail[i]) >= 10);
    law_parse_refuses(tail, i, 10, u16::MAX as nat);
    law_parse(Seq::empty(), 0, u16::MAX as nat, 10);
    lemma_find(host, ':');
    let whole = host + seq![':'] + tail;
    if whole[0] == '[' {
        assert(host.len() == 0);
        assert(whole[0] == ':');
    }
    let short = host + seq![':'];
    if short[0] == '[' {
        assert(host.len() == 0);
        assert(short[0] == ':');
    }
    if forall|j: int| 0 <= j < host.len() ==> host[j] != ':' {
        assert(find(host, ':') >= host.len());
    }
}

/// Whether the word is `listening`, each letter in either case.
pub open spec fn is_listening(word: Seq<char>) -> bool {
    &&& word.len() == 9
    &&& word[0] == 'l' || word[0] == 'L'
    &&& word[1] == 'i' || word[1] == 'I'
    &&& word[2] == 's' || word[2] == 'S'
    &&& word[3] == 't' || word[3] == 'T'
    &&& word[4] == 'e' || word[4] == 'E'
    &&& word[5] == 'n' || word[5] == 'N'
    &&& word[6] == 'i' || word[6] == 'I'
    &&& word[7] == 'n' || word[7] == 'N'
    &&& word[8] == 'g' || word[8] == 'G'
}

proof fn lemma_listening(word: Seq<char>)
    ensures
        lowered(word) == "listening"@ <==> is_listening(word),
{
    reveal_strlit("listening");
    if lowered(word) == "listening"@ {
        assert(lowered(word).len() == word.len());
        assert forall|i: int| 0 <= i < 9 implies #[trigger] word[i] == "listening"@[i]
            || word[i] as int == "listening"@[i] as int - 32 by {
            assert(lowered(word)[i] == lower(word[i]));
        }
    }
    if is_listening(word) {
        assert(lowered(word) =~= "listening"@);
    }
}

/// A line of five words is a row exactly if its second is an address with the port, its
/// fourth says that the socket listens, and its fifth is the number of a process; that
/// number, and the port, are what it tells.
pub proof fn law_netstat_line(line: Seq<char>, port: u16, pid: u32)
    ensures
        words(line).len() == 5 && address_port(words(line)[1]) == Some(port) && is_listening(
            words(line)[3],
        ) && words(line)[4] == dec(pid as nat) ==> netstat_row(line, port) == Some(
            NetstatRow { pid, local_port: port },
        ),
        netstat_row(line, port) matches Some(row) ==> {
            &&& row.local_port == port
            &&& words(line).len() == 5
            &&& address_port(words(line)[1]) == Some(port)
            &&& is_listening(words(line)[3])
            &&& parse(words(line)[4], 10, 0xffff_ffff) == Some(row.pid as nat)
        },
{
    lemma_listening(words(line)[3]);
    law_parse(Seq::empty(), pid as nat, u32::MAX as nat, 10);
}

proof fn lemma_rows(ls: Seq<Seq<char>>, port: u16, row: NetstatRow)
    ensures
        (exists|k: int| 0 <= k < ls.len() && netstat_row(#[trigger] ls[k], port) == Some(row))
            <==> (exists|i: int|
            0 <= i < netstat_rows(ls, port).len() && #[trigger] netstat_rows(ls, port)[i] == row),
    decreases ls.len(),
{
    let all = netstat_rows(ls, port);
    if ls.len() > 0 {
        let front = ls.drop_last();
        let before = netstat_rows(front, port);
        lemma_rows(front, port, row);
        if exists|k: int| 0 <= k < ls.len() && netstat_row(#[trigger] ls[k], port) == Some(row) {
            let k = choose|k: int|
                0 <= k < ls.len() && netstat_row(#[trigger] ls[k], port) == Some(row);
            if k < front.len() {
                assert(netstat_row(front[k], port) == Some(row));
                let i = choose|i: int| 0 <= i < before.len() && #[trigger] before[i] == row;
                assert(all[i] == row);
            } else {
                assert(all[all.len() - 1] == row);
            }
        }
        if exists|i: int| 0 <= i < all.len() && #[trigger] all[i] == row {
            let i = choose|i: int| 0 <= i < all.len() && #[trigger] all[i] == row;
            if i < before.len() {
                assert(before[i] == row);
                let k = choose|k: int|
                    0 <= k < front.len() && netstat_row(#[trigger] front[k], port) == Some(row);
                assert(ls[k] == front[k]);
            } else {
                assert(netstat_row(ls[ls.len() - 1], port) == Some(row));
            }
        }
    }
}

/// Whatever a line tells is found, each process once; and nothing else is. The port is
/// free exactly if no line tells of one.
pub proof fn law_listeners_are_found(port: u16, stdout: Vec<u8>, stderr: Vec<u8>)
    ensures
        ({
            let ls = lines(decoded(stdout@));
            let reply = CommandReply::Ended { code: Some(0), stdout, stderr };
            &&& found(port, reply) matches Ok(processes) && {
                &&& forall|pid: u32| #[trigger]
                    listed(processes, pid) <==> exists|k: int|
                        0 <= k < ls.len() && netstat_row(#[trigger] ls[k], port) == Some(
                            NetstatRow { pid, local_port: port },
                        )
                &&& forall|i: int, j: int|
                    0 <= i < j < processes.len() ==> (#[trigger] processes[i]).pid != (
                    #[trigger] processes[j]).pid
                &&& forall|i: int|
                    0 <= i < processes.len() ==> {
                        let p = #[trigger] processes[i];
                        &&& p.name == "pid-"@ + dec(p.pid as nat)
                        &&& p.command is None
                        &&& p.user is None
                        &&& p.uptime_secs is None
                        &&& p.cwd is None
                    }
            }
            &&& free(port, reply) == Ok::<bool, AppErrorView>(
                forall|k: int| 0 <= k < ls.len() ==> netstat_row(#[trigger] ls[k], port) is None,
            )
        }),
{
    let ls = lines(decoded(stdout@));
    let rows = netstat_rows(ls, port);
    let all = rows.map_values(
        |row: NetstatRow| ProcessInfoView::bare(row.pid, placeholder(row.pid)),
    );
    let processes = first_of_each(all);
    assert forall|pid: u32| #[trigger] listed(processes, pid) <==> exists|k: int|
        0 <= k < ls.len() && netstat_row(#[trigger] ls[k], port) == Some(
            NetstatRow { pid, local_port: port },
        ) by {
        let row = NetstatRow { pid, local_port: port };
        law_dedup_loses_none(all, pid);
        lemma_rows(ls, port, row);
        if listed(processes, pid) {
            let i = choose|i: int| 0 <= i < all.len() && (#[trigger] all[i]).pid == pid;
            let told = rows[i];
            lemma_rows(ls, port, told);
            let k = choose|k: int|
                0 <= k < ls.len() && netstat_row(#[trigger] ls[k], port) == Some(told);
            law_netstat_line(ls[k], port, pid);
            assert(told == row);
        }
        if exists|k: int| 0 <= k < ls.len() && netstat_row(#[trigger] ls[k], port) == Some(row) {
            let i = choose|i: int| 0 <= i < rows.len() && #[trigger] rows[i] == row;
            assert(all[i].pid == pid);
        }
    }
    assert forall|i: int, j: int| 0 <= i < j < processes.len() implies (#[trigger] processes[i]).pid
        != (#[trigger] processes[j]).pid by {
        law_dedup_is_distinct(all, i, j);
    }
    assert forall|i: int| 0 <= i < processes.len() implies ({
        let p = #[trigger] processes[i];
        &&& p.name == "pid-"@ + dec(p.pid as nat)
        &&& p.command is None
        &&& p.user is None
        &&& p.uptime_secs is None
        &&& p.cwd is None
    }) by {
        law_dedup_adds_none(all, i);
    }
    if rows.len() > 0 {
        lemma_rows(ls, port, rows[0]);
        let k = choose|k: int|
            0 <= k < ls.len() && netstat_row(#[trigger] ls[k], port) == Some(rows[0]);
        assert(!(netstat_row(ls[k], port) is None));
    } else {
        assert forall|k: int| 0 <= k < ls.len() implies netstat_row(
            #[trigger] ls[k],
            port,
        ) is None by {
            if let Some(row) = netstat_row(ls[k], port) {
                lemma_rows(ls, port, row);
            }
        }
    }
}

/// A `netstat` that failed, or was not started, tells nothing: both questions fail.
pub proof fn law_netstat_failed(
    port: u16,
    stdout: Vec<u8>,
    stderr: Vec<u8>,
    detail: String,
    code: Option<i32>,
)
    ensures
        code != Some(0i32) ==> (found(
            port,
            CommandReply::Ended { code, stdout, stderr },
        ) matches Err(AppErrorView::OsCommandFailed { command, message: _ }) && command
            == "netstat"@),
        code != Some(0i32) ==> free(port, CommandReply::Ended { code, stdout, stderr }) is Err,
        found(port, CommandReply::NotStarted { detail }) matches Err(
            AppErrorView::OsCommandFailed { command, message: _ },
        ) && command == "netstat"@,
        free(port, CommandReply::NotStarted { detail }) is Err,
{
}

} // verus!

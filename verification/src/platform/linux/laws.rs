//! What the files under `/proc` say, and what is found by it.

use vstd::prelude::*;
use vstd::utf8::{
    decode_utf8, encode_utf8, encode_utf8_decode_utf8, encode_utf8_valid_utf8, valid_utf8,
};

use crate::error::AppErrorView;
use crate::platform::linux::{
    address_port, are_holders, are_listening, command_in, described, describes, dir_pid, entries_in,
    entry_shows, finds, first_name, free, holder, law_in_use_is_not_free, lemma_four_digits,
    link_inode, links_to, lists, opt_bytes, pid_dir, proc_read, spaced, table_entries, table_entry,
    table_shows, tables_error, tables_read, ProcFs, ProcNetEntry, TableRead, TcpTable,
};
use crate::platform::listed;
use crate::process::enrich::laws::lemma_join_ends;
use crate::process::{opt_text, ProcessInfoView};
use crate::text::laws::{is_blank, is_word, law_after_last, law_number, law_parse, law_trim};
use crate::text::{
    all_digits, dec, digit, join, lemma_dec, lines, number, parse, starts_with, texts, white, words,
};

verus! {

// ---------------------------------------------------------------------------
// Socket tables
// ---------------------------------------------------------------------------

/// Whether the character is a hexadecimal digit, in either case.
pub open spec fn is_hex(c: char) -> bool {
    '0' <= c <= '9' || 'a' <= c <= 'f' || 'A' <= c <= 'F'
}

/// The port of an address is what the four hexadecimal digits after its last colon write,
/// whatever the host is.
pub proof fn law_address(host: Seq<char>, a: char, b: char, c: char, d: char)
    requires
        is_hex(a),
        is_hex(b),
        is_hex(c),
        is_hex(d),
    ensures
        address_port(host + seq![':'] + seq![a, b, c, d]) matches Some(port) && port == digit(a)
            * 4096 + digit(b) * 256 + digit(c) * 16 + digit(d),
{
    let hex = seq![a, b, c, d];
    law_after_last(host, ':', hex);
    assert(all_digits(hex, 16));
    lemma_four_digits(hex);
    reveal_with_fuel(number, 5);
    let x = hex.drop_last();
    let y = x.drop_last();
    let z = y.drop_last();
    assert(hex.last() == d && x.last() == c && y.last() == b && z.last() == a);
}

/// An address whose last colon is not followed by exactly four hexadecimal digits has no
/// port.
pub proof fn law_address_refuses(host: Seq<char>, tail: Seq<char>)
    requires
        forall|i: int| 0 <= i < tail.len() ==> tail[i] != ':',
        tail.len() != 4 || exists|i: int| 0 <= i < tail.len() && !is_hex(#[trigger] tail[i]),
    ensures
        address_port(host + seq![':'] + tail) is None,
{
    law_after_last(host, ':', tail);
    if tail.len() == 4 {
        let i = choose|i: int| 0 <= i < tail.len() && !is_hex(#[trigger] tail[i]);
        assert(digit(tail[i]) >= 16);
    }
}

/// What a line of a socket table says, by its words: the second is the local address, the
/// fourth the state in two hexadecimal digits, the tenth the inode in decimal.
pub proof fn law_table_row(
    line: Seq<char>,
    host: Seq<char>,
    hex: Seq<char>,
    high: char,
    low: char,
    inode: u64,
)
    requires
        words(line).len() >= 10,
        hex.len() == 4,
        forall|i: int| 0 <= i < 4 ==> is_hex(#[trigger] hex[i]),
        words(line)[1] == host + seq![':'] + hex,
        is_hex(high),
        is_hex(low),
        words(line)[3] == seq![high, low],
        words(line)[9] == dec(inode as nat),
    ensures
        table_entry(line) matches Some(entry) && {
            &&& entry.local_port == digit(hex[0]) * 4096 + digit(hex[1]) * 256 + digit(hex[2]) * 16
                + digit(hex[3])
            &&& entry.state == digit(high) * 16 + digit(low)
            &&& entry.inode == inode
        },
{
    law_address(host, hex[0], hex[1], hex[2], hex[3]);
    assert(hex =~= seq![hex[0], hex[1], hex[2], hex[3]]);
    let state = seq![high, low];
    assert(all_digits(state, 16));
    law_number(Seq::empty(), high, 16);
    law_number(seq![high], low, 16);
    assert(Seq::<char>::empty().push(high) =~= seq![high]);
    assert(seq![high].push(low) =~= state);
    assert(number(state, 16) == digit(high) * 16 + digit(low));
    law_parse(state, inode as nat, u64::MAX as nat, 16);
    assert(state[0] != '+');
}

/// A row says nothing but what stands in its line.
pub proof fn law_table_row_is_read(line: Seq<char>, entry: ProcNetEntry)
    requires
        table_entry(line) == Some(entry),
    ensures
        words(line).len() >= 10,
        address_port(words(line)[1]) == Some(entry.local_port),
        parse(words(line)[3], 16, 0xff) == Some(entry.state as nat),
        parse(words(line)[9], 10, 0xffff_ffff_ffff_ffff) == Some(entry.inode as nat),
{
}

proof fn lemma_entries(ls: Seq<Seq<char>>, entry: ProcNetEntry)
    ensures
        (exists|k: int| 0 <= k < ls.len() && table_entry(#[trigger] ls[k]) == Some(entry)) <==> (
        exists|i: int| 0 <= i < entries_in(ls).len() && #[trigger] entries_in(ls)[i] == entry),
    decreases ls.len(),
{
    let all = entries_in(ls);
    if ls.len() > 0 {
        let front = ls.drop_last();
        let before = entries_in(front);
        lemma_entries(front, entry);
        if exists|k: int| 0 <= k < ls.len() && table_entry(#[trigger] ls[k]) == Some(entry) {
            let k = choose|k: int| 0 <= k < ls.len() && table_entry(#[trigger] ls[k]) == Some(entry);
            if k < front.len() {
                assert(table_entry(front[k]) == Some(entry));
                let i = choose|i: int| 0 <= i < before.len() && #[trigger] before[i] == entry;
                assert(all[i] == entry);
            } else {
                assert(all[all.len() - 1] == entry);
            }
        }
        if exists|i: int| 0 <= i < all.len() && #[trigger] all[i] == entry {
            let i = choose|i: int| 0 <= i < all.len() && #[trigger] all[i] == entry;
            if i < before.len() {
                assert(before[i] == entry);
                let k = choose|k: int|
                    0 <= k < front.len() && table_entry(#[trigger] front[k]) == Some(entry);
                assert(ls[k] == front[k]);
            } else {
                assert(table_entry(ls[ls.len() - 1]) == Some(entry));
            }
        }
    }
}

/// A socket is shown to listen on a port exactly when some line after the heading says
/// so: its row has that port, the state ten, and that inode.
pub proof fn law_listening_lines(text: String, port: u16, inode: u64)
    ensures
        table_shows(TableRead::Contents { text }, port, inode) <==> exists|k: int|
            1 <= k < lines(text@).len() && table_entry(#[trigger] lines(text@)[k]) == Some(
                ProcNetEntry { local_port: port, state: 10, inode },
            ),
        !table_shows(TableRead::Missing, port, inode),
{
    let ls = lines(text@);
    let entry = ProcNetEntry { local_port: port, state: 10, inode };
    if ls.len() > 0 {
        let rest = ls.skip(1);
        lemma_entries(rest, entry);
        assert(table_entries(text@) == entries_in(rest));
        if exists|k: int| 1 <= k < ls.len() && table_entry(#[trigger] ls[k]) == Some(entry) {
            let k = choose|k: int| 1 <= k < ls.len() && table_entry(#[trigger] ls[k]) == Some(entry);
            assert(rest[k - 1] == ls[k]);
            assert(entry_shows(entries_in(rest), port, inode));
        }
        if table_shows(TableRead::Contents { text }, port, inode) {
            let i = choose|i: int|
                0 <= i < entries_in(rest).len() && #[trigger] entries_in(rest)[i] == entry;
            assert(entries_in(rest)[i] == entry);
            let k = choose|k: int|
                0 <= k < rest.len() && table_entry(#[trigger] rest[k]) == Some(entry);
            assert(ls[k + 1] == rest[k]);
        }
    }
}

// ---------------------------------------------------------------------------
// Processes
// ---------------------------------------------------------------------------

/// A process directory, written in decimal, is that of its process; a name with anything
/// but decimal digits in it is that of none.
pub proof fn law_process_directory(pid: u32, name: Seq<char>)
    ensures
        dir_pid(dec(pid as nat)) == Some(pid),
        dir_pid(name) matches Some(n) ==> name.len() > 0 && n == number(name, 10),
        (exists|i: int| 0 <= i < name.len() && !('0' <= #[trigger] name[i] <= '9')) ==> dir_pid(
            name,
        ) is None,
        name.len() == 0 ==> dir_pid(name) is None,
{
    lemma_dec(pid as nat);
    law_parse(Seq::empty(), pid as nat, u32::MAX as nat, 10);
    if exists|i: int| 0 <= i < name.len() && !('0' <= #[trigger] name[i] <= '9') {
        let i = choose|i: int| 0 <= i < name.len() && !('0' <= #[trigger] name[i] <= '9');
        assert(digit(name[i]) >= 10);
    }
    if dir_pid(name) is Some {
        assert(digit(name[0]) < 10);
        assert(name[0] != '+');
    }
}

/// A link to a socket names its inode in decimal between square brackets, and no other
/// link names one.
pub proof fn law_socket_link(inode: u64, link: Seq<char>)
    ensures
        link_inode("socket:["@ + dec(inode as nat) + "]"@) == Some(inode),
        link_inode(link) matches Some(n) ==> {
            &&& link.len() >= 9
            &&& link.take(8) == "socket:["@
            &&& link.last() == ']'
            &&& parse(link.subrange(8, link.len() - 1), 10, 0xffff_ffff_ffff_ffff) == Some(n as nat)
        },
{
    reveal_strlit("socket:[");
    reveal_strlit("]");
    let d = dec(inode as nat);
    let whole = "socket:["@ + d + "]"@;
    assert(whole.take(8) =~= "socket:["@);
    assert(whole.skip(8) =~= d + "]"@);
    assert((d + "]"@).skip(d.len() as int) =~= "]"@);
    assert((d + "]"@).drop_last() =~= d);
    law_parse(Seq::empty(), inode as nat, u64::MAX as nat, 10);
    if link_inode(link) is Some {
        let rest = link.skip(8);
        assert(rest.skip(rest.len() - 1) == "]"@);
        assert(rest.skip(rest.len() - 1)[0] == ']');
        assert(rest.drop_last() =~= link.subrange(8, link.len() - 1));
        assert("socket:["@.len() == 8);
    }
}

/// A process that has a link to a socket with one of the inodes is a holder.
pub proof fn law_holder(
    names: Seq<String>,
    links: Seq<Vec<String>>,
    targets: Set<u64>,
    pid: u32,
    inode: u64,
    i: int,
    j: int,
)
    requires
        0 <= i < names.len(),
        names[i]@ == dec(pid as nat),
        0 <= j < links[i]@.len(),
        links[i]@[j]@ == "socket:["@ + dec(inode as nat) + "]"@,
        targets.contains(inode),
    ensures
        holder(names, links, targets, pid),
{
    law_process_directory(pid, Seq::empty());
    law_socket_link(inode, Seq::empty());
    let held = texts(links[i]@);
    assert(held[j] == links[i]@[j]@);
    assert(links_to(held, targets));
    assert(dir_pid(names[i]@) == Some(pid));
}

/// Whether a process with the number `pid` has a link to a socket that one of the tables
/// shows to listen on `port`.
pub open spec fn holds_port(
    names: Seq<String>,
    links: Seq<Vec<String>>,
    v4: TableRead,
    v6: TableRead,
    port: u16,
    pid: u32,
) -> bool {
    exists|i: int, j: int|
        0 <= i < names.len() && 0 <= j < links[i]@.len() && dir_pid(names[i]@) == Some(pid) && (
        link_inode(#[trigger] links[i]@[j]@) matches Some(inode) && (table_shows(v4, port, inode)
            || table_shows(v6, port, inode)))
}

/// What is found on a port are exactly the processes that have a link to a socket that
/// listens on it, each once. If no socket listens, nothing is found; if one does, and no
/// process that can be seen has a link to it, access is denied.
pub proof fn law_holders_are_found<F: ProcFs + ?Sized>(
    fs: &F,
    port: u16,
    v4: TableRead,
    v6: TableRead,
    r: Result<Seq<ProcessInfoView>, AppErrorView>,
)
    requires
        finds(fs, port, v4, v6, r),
        v4 !is Failed,
        v6 !is Failed,
    ensures
        (forall|inode: u64| !table_shows(v4, port, inode) && !table_shows(v6, port, inode)) ==> r
            == Ok::<Seq<ProcessInfoView>, AppErrorView>(Seq::empty()),
        (exists|inode: u64| table_shows(v4, port, inode) || table_shows(v6, port, inode))
            ==> exists|names: Vec<String>, links: Seq<Vec<String>>| #[trigger]
            proc_read(fs, names, links) && match r {
                Ok(processes) => {
                    &&& forall|pid: u32| #[trigger]
                        listed(processes, pid) <==> holds_port(names@, links, v4, v6, port, pid)
                    &&& forall|i: int, j: int|
                        0 <= i < j < processes.len() ==> (#[trigger] processes[i]).pid != (
                        #[trigger] processes[j]).pid
                },
                Err(e) => {
                    &&& e == (AppErrorView::AccessDenied { port })
                    &&& forall|pid: u32| !#[trigger] holds_port(names@, links, v4, v6, port, pid)
                },
            },
{
    let inodes = choose|inodes: Set<u64>| #[trigger]
        are_listening(v4, v6, port, inodes) && if inodes == Set::<u64>::empty() {
            r == Ok::<Seq<ProcessInfoView>, AppErrorView>(Seq::empty())
        } else {
            exists|pids: Set<u32>| #[trigger]
                are_holders(fs, inodes, pids) && if pids == Set::<u32>::empty() {
                    r == Err::<Seq<ProcessInfoView>, AppErrorView>(
                        AppErrorView::AccessDenied { port },
                    )
                } else {
                    r matches Ok(processes) && lists(fs, processes, pids)
                }
        };
    if forall|inode: u64| !table_shows(v4, port, inode) && !table_shows(v6, port, inode) {
        assert forall|inode: u64| !inodes.contains(inode) by {
            assert(!table_shows(v4, port, inode));
        }
        assert(inodes =~= Set::empty());
    } else {
        let inode = choose|inode: u64|
            table_shows(v4, port, inode) || table_shows(v6, port, inode);
        assert(inodes.contains(inode));
        let pids = choose|pids: Set<u32>| #[trigger]
            are_holders(fs, inodes, pids) && if pids == Set::<u32>::empty() {
                r == Err::<Seq<ProcessInfoView>, AppErrorView>(AppErrorView::AccessDenied { port })
            } else {
                r matches Ok(processes) && lists(fs, processes, pids)
            };
        let (names, links) = choose|names: Vec<String>, links: Seq<Vec<String>>| #[trigger]
            proc_read(fs, names, links) && forall|pid: u32| #[trigger]
                pids.contains(pid) <==> holder(names@, links, inodes, pid);
        assert(proc_read(fs, names, links));
        assert forall|pid: u32| #[trigger]
            pids.contains(pid) <==> holds_port(names@, links, v4, v6, port, pid) by {
            lemma_holds_port(names@, links, v4, v6, port, inodes, pid);
        }
        if let Ok(processes) = r {
            assert forall|pid: u32| #[trigger]
                listed(processes, pid) <==> holds_port(names@, links, v4, v6, port, pid) by {
                assert(pids.contains(pid) <==> holds_port(names@, links, v4, v6, port, pid));
            }
        } else {
            assert forall|pid: u32| !#[trigger] holds_port(names@, links, v4, v6, port, pid) by {
                assert(!pids.contains(pid));
            }
        }
    }
}

proof fn lemma_holds_port(
    names: Seq<String>,
    links: Seq<Vec<String>>,
    v4: TableRead,
    v6: TableRead,
    port: u16,
    inodes: Set<u64>,
    pid: u32,
)
    requires
        are_listening(v4, v6, port, inodes),
    ensures
        holder(names, links, inodes, pid) <==> holds_port(names, links, v4, v6, port, pid),
{
    if holder(names, links, inodes, pid) {
        let i = choose|i: int|
            0 <= i < names.len() && dir_pid((#[trigger] names[i])@) == Some(pid) && links_to(
                texts(links[i]@),
                inodes,
            );
        let held = texts(links[i]@);
        let j = choose|j: int|
            0 <= j < held.len() && (link_inode(#[trigger] held[j]) matches Some(inode)
                && inodes.contains(inode));
        assert(held[j] == links[i]@[j]@);
        assert(link_inode(links[i]@[j]@) is Some);
    }
    if holds_port(names, links, v4, v6, port, pid) {
        let (i, j) = choose|i: int, j: int|
            0 <= i < names.len() && 0 <= j < links[i]@.len() && dir_pid(names[i]@) == Some(pid) && (
            link_inode(#[trigger] links[i]@[j]@) matches Some(inode) && (table_shows(
                v4,
                port,
                inode,
            ) || table_shows(v6, port, inode)));
        let held = texts(links[i]@);
        assert(held[j] == links[i]@[j]@);
        assert(inodes.contains(link_inode(held[j])->0));
        assert(links_to(held, inodes));
        assert(dir_pid(names[i]@) == Some(pid));
    }
}

/// A port is called free exactly when nothing is found on it; on a port that is not, a
/// process is found, or access is denied. What goes wrong with the tables is the same for
/// both questions.
pub proof fn law_free_means_nothing_found<F: ProcFs + ?Sized>(
    fs: &F,
    port: u16,
    v4: TableRead,
    v6: TableRead,
    r: Result<Seq<ProcessInfoView>, AppErrorView>,
)
    requires
        finds(fs, port, v4, v6, r),
    ensures
        v4 is Failed || v6 is Failed ==> (r matches Err(e) && free(port, v4, v6) == Err::<
            bool,
            AppErrorView,
        >(e)),
        v4 !is Failed && v6 !is Failed ==> {
            &&& r matches Ok(processes) ==> free(port, v4, v6) == Ok::<bool, AppErrorView>(
                processes.len() == 0,
            )
            &&& r is Err ==> free(port, v4, v6) == Ok::<bool, AppErrorView>(false)
        },
{
    if v4 !is Failed && v6 !is Failed {
        law_holders_are_found(fs, port, v4, v6, r);
        if let Ok(processes) = r {
            if exists|inode: u64| table_shows(v4, port, inode) || table_shows(v6, port, inode) {
                let inode = choose|inode: u64|
                    table_shows(v4, port, inode) || table_shows(v6, port, inode);
                law_in_use_is_not_free(fs, port, v4, v6, inode, processes);
            }
        }
    }
}

/// Whether a line of a table after its heading says that a socket with the inode listens
/// on the port. A table that is missing has no lines.
pub open spec fn listed_in(read: TableRead, port: u16, inode: u64) -> bool {
    read matches TableRead::Contents { text } && exists|k: int|
        1 <= k < lines(text@).len() && table_entry(#[trigger] lines(text@)[k]) == Some(
            ProcNetEntry { local_port: port, state: 10, inode },
        )
}

/// A line after the heading of either table that shows a socket to listen on a port makes
/// the port not free; without any such line it is.
pub proof fn law_free_by_lines(port: u16, v4: TableRead, v6: TableRead)
    requires
        v4 !is Failed,
        v6 !is Failed,
    ensures
        free(port, v4, v6) == Ok::<bool, AppErrorView>(
            forall|inode: u64|
                !#[trigger] listed_in(v4, port, inode) && !#[trigger] listed_in(v6, port, inode),
        ),
{
    let nothing = forall|inode: u64|
        !#[trigger] listed_in(v4, port, inode) && !#[trigger] listed_in(v6, port, inode);
    assert forall|inode: u64|
        table_shows(v4, port, inode) == listed_in(v4, port, inode) && table_shows(v6, port, inode)
            == listed_in(v6, port, inode) by {
        lemma_listed_in(v4, port, inode);
        lemma_listed_in(v6, port, inode);
    }
    if nothing {
        assert forall|inode: u64|
            !table_shows(v4, port, inode) && !table_shows(v6, port, inode) by {
            assert(!listed_in(v4, port, inode) && !listed_in(v6, port, inode));
        }
    } else {
        let inode = choose|inode: u64|
            !(!#[trigger] listed_in(v4, port, inode) && !#[trigger] listed_in(v6, port, inode));
        assert(table_shows(v4, port, inode) || table_shows(v6, port, inode));
    }
}

proof fn lemma_listed_in(read: TableRead, port: u16, inode: u64)
    ensures
        table_shows(read, port, inode) == listed_in(read, port, inode),
{
    if let TableRead::Contents { text } = read {
        law_listening_lines(text, port, inode);
    }
}

/// A table that could not be read is an error that names the table and says what the
/// system said; the second table counts only if the first could be read, or is missing.
pub proof fn law_unreadable_table<F: ProcFs + ?Sized>(
    fs: &F,
    port: u16,
    v4: TableRead,
    v6: TableRead,
    detail: String,
    r: Result<Seq<ProcessInfoView>, AppErrorView>,
)
    requires
        finds(fs, port, v4, v6, r),
    ensures
        v4 == (TableRead::Failed { detail }) ==> r == Err::<Seq<ProcessInfoView>, AppErrorView>(
            AppErrorView::Io { path: "/proc/net/tcp"@, source: detail@ },
        ),
        v4 !is Failed && v6 == (TableRead::Failed { detail }) ==> r == Err::<
            Seq<ProcessInfoView>,
            AppErrorView,
        >(AppErrorView::Io { path: "/proc/net/tcp6"@, source: detail@ }),
        tables_error(v4, v6) is None <==> v4 !is Failed && v6 !is Failed,
{
}

// ---------------------------------------------------------------------------
// What is known of a process
// ---------------------------------------------------------------------------

/// The name of a process is what the first `Name:` line of its status file that is not blank
/// holds, without the white space around it; without such a line it has none.
pub proof fn law_status_name(
    before: Seq<Seq<char>>,
    blank: Seq<char>,
    name: Seq<char>,
    more: Seq<char>,
    after: Seq<Seq<char>>,
)
    requires
        forall|i: int|
            0 <= i < before.len() ==> !starts_with(#[trigger] before[i], "Name:"@) || is_blank(
                before[i].skip(5),
            ),
        is_blank(blank),
        is_blank(more),
        name.len() > 0,
        !white(name[0]),
        !white(name.last()),
    ensures
        first_name(before + seq!["Name:"@ + blank + name + more] + after) == Some(name),
        first_name(before) is None,
    decreases after.len(),
{
    let line = "Name:"@ + blank + name + more;
    lemma_no_name(before);
    if after.len() == 0 {
        let all = before + seq![line] + after;
        reveal_strlit("Name:");
        assert(all.drop_last() =~= before);
        assert(all.last() == line);
        assert(line.take(5) =~= "Name:"@);
        assert(line.skip(5) =~= blank + name + more);
        law_trim(blank, name, more);
    } else {
        let front = after.drop_last();
        let all = before + seq![line] + after;
        assert(all.drop_last() =~= before + seq![line] + front);
        law_status_name(before, blank, name, more, front);
    }
}

proof fn lemma_no_name(ls: Seq<Seq<char>>)
    requires
        forall|i: int|
            0 <= i < ls.len() ==> !starts_with(#[trigger] ls[i], "Name:"@) || is_blank(
                ls[i].skip(5),
            ),
    ensures
        first_name(ls) is None,
    decreases ls.len(),
{
    if ls.len() > 0 {
        let front = ls.drop_last();
        assert forall|i: int| 0 <= i < front.len() implies !starts_with(
            #[trigger] front[i],
            "Name:"@,
        ) || is_blank(front[i].skip(5)) by {
            assert(front[i] == ls[i]);
        }
        lemma_no_name(front);
        let last = ls[ls.len() - 1];
        if is_blank(last.skip(5)) {
            law_trim(last.skip(5), Seq::empty(), Seq::empty());
            assert(last.skip(5) + Seq::<char>::empty() + Seq::<char>::empty() =~= last.skip(5));
        }
    }
}

/// Arguments with a NUL after each read as the arguments with spaces between them.
pub proof fn law_command_line(args: Seq<Seq<char>>)
    requires
        args.len() > 0,
        forall|i: int| 0 <= i < args.len() ==> is_word(#[trigger] args[i]),
        forall|i: int, j: int|
            0 <= i < args.len() && 0 <= j < args[i].len() ==> #[trigger] args[i][j] != '\0',
    ensures
        command_in(encode_utf8(join(args, seq!['\0'])).push(0u8)) == join(args, seq![' ']),
{
    let text = join(args, seq!['\0']);
    let bytes = encode_utf8(text);
    encode_utf8_valid_utf8(text);
    encode_utf8_decode_utf8(text);
    assert(bytes.push(0u8).drop_last() =~= bytes);
    lemma_spaced(args);
    lemma_join_ends(args);
    let shown = join(args, seq![' ']);
    assert(Seq::<char>::empty() + shown + Seq::<char>::empty() =~= shown);
    law_trim(Seq::empty(), shown, Seq::empty());
}

/// Bytes without a NUL at their end are read in full.
pub proof fn law_unterminated_command_line(bytes: Seq<u8>)
    requires
        bytes.len() > 0,
        bytes.last() != 0,
        valid_utf8(bytes),
    ensures
        command_in(bytes) == spaced(decode_utf8(bytes)),
        command_in(bytes.push(0u8)) == spaced(decode_utf8(bytes)),
        command_in(Seq::empty()) == Seq::<char>::empty(),
{
    assert(bytes.push(0u8).drop_last() =~= bytes);
}

proof fn lemma_spaced(args: Seq<Seq<char>>)
    requires
        args.len() > 0,
        forall|i: int, j: int|
            0 <= i < args.len() && 0 <= j < args[i].len() ==> #[trigger] args[i][j] != '\0',
    ensures
        join(args, seq!['\0']).map_values(
            |c: char|
                if c == '\0' {
                    ' '
                } else {
                    c
                },
        ) == join(args, seq![' ']),
    decreases args.len(),
{
    let f = |c: char|
        if c == '\0' {
            ' '
        } else {
            c
        };
    if args.len() == 1 {
        assert(args[0].map_values(f) =~= args[0]);
    } else {
        let front = args.drop_last();
        assert forall|i: int, j: int|
            0 <= i < front.len() && 0 <= j < front[i].len() implies #[trigger] front[i][j]
            != '\0' by {
            assert(front[i][j] == args[i][j]);
        }
        lemma_spaced(front);
        let last = args[args.len() - 1];
        assert(last.map_values(f) =~= last) by {
            assert forall|j: int| 0 <= j < last.len() implies last[j] != '\0' by {
                assert(args[args.len() - 1][j] != '\0');
            }
        }
        let joined = join(front, seq!['\0']);
        assert((joined + seq!['\0'] + last).map_values(f) =~= joined.map_values(f) + seq![' ']
            + last.map_values(f));
    }
}

/// What is known of a process: its number, its name or else its number, its command line
/// if there is one, and its directory; nothing else.
pub proof fn law_described(
    pid: u32,
    status: Option<Seq<char>>,
    cmdline: Option<Seq<u8>>,
    cwd: Option<Seq<char>>,
)
    ensures
        ({
            let p = described(pid, status, cmdline, cwd);
            &&& p.pid == pid
            &&& p.cwd == cwd
            &&& p.user is None
            &&& p.uptime_secs is None
            &&& status is None ==> p.name == dec(pid as nat)
            &&& status matches Some(text) ==> if first_name(lines(text)) is Some {
                p.name == first_name(lines(text))->0
            } else {
                p.name == dec(pid as nat)
            }
            &&& cmdline is None ==> p.command is None
            &&& cmdline matches Some(bytes) ==> if command_in(bytes).len() == 0 {
                p.command is None
            } else {
                p.command == Some(command_in(bytes))
            }
        }),
{
}

// ---------------------------------------------------------------------------
// What is read
// ---------------------------------------------------------------------------

/// Both tables are read, the second whenever the first could be read or is missing.
pub proof fn law_both_tables_are_read<F: ProcFs + ?Sized>(fs: &F, v4: TableRead, v6: TableRead)
    requires
        tables_read(fs, v4, v6),
    ensures
        call_ensures(F::read_table, (fs, TcpTable::V4), v4),
        v4 is Contents || v4 is Missing ==> call_ensures(F::read_table, (fs, TcpTable::V6), v6),
{
}

/// The links of every process directory are read, whatever else stands under `/proc`.
pub proof fn law_every_process_is_searched<F: ProcFs + ?Sized>(
    fs: &F,
    names: Vec<String>,
    links: Seq<Vec<String>>,
    pid: u32,
    i: int,
)
    requires
        proc_read(fs, names, links),
        0 <= i < names@.len(),
        names@[i]@ == dec(pid as nat),
    ensures
        call_ensures(F::entries, (fs,), names),
        call_ensures(F::links, (fs, &names@[i]), links[i]),
{
    law_process_directory(pid, Seq::empty());
}

/// Which names are those of processes: those of decimal digits, one at least.
pub proof fn law_process_names(name: Seq<char>)
    ensures
        pid_dir(name) <==> name.len() > 0 && forall|i: int|
            0 <= i < name.len() ==> '0' <= #[trigger] name[i] <= '9',
{
    if pid_dir(name) {
        assert forall|i: int| 0 <= i < name.len() implies '0' <= #[trigger] name[i] <= '9' by {
            assert(digit(name[i]) < 10);
        }
    }
}

/// Each process that is found is as the files of that process tell.
pub proof fn law_found_as_read<F: ProcFs + ?Sized>(
    fs: &F,
    port: u16,
    v4: TableRead,
    v6: TableRead,
    processes: Seq<ProcessInfoView>,
    p: ProcessInfoView,
)
    requires
        finds(fs, port, v4, v6, Ok(processes)),
        processes.contains(p),
    ensures
        exists|status: Option<String>, cmdline: Option<Vec<u8>>, cwd: Option<String>|
            {
                &&& #[trigger] call_ensures(F::status, (fs, p.pid), status)
                &&& #[trigger] call_ensures(F::cmdline, (fs, p.pid), cmdline)
                &&& #[trigger] call_ensures(F::cwd, (fs, p.pid), cwd)
                &&& cwd is None ==> p.cwd is None
                &&& cwd matches Some(dir) ==> p.cwd == Some(dir@)
                &&& status is None ==> p.name == dec(p.pid as nat)
                &&& status matches Some(text) ==> (first_name(lines(text@)) matches Some(name)
                    ==> p.name == name)
                &&& cmdline is None ==> p.command is None
                &&& cmdline matches Some(bytes) ==> (command_in(bytes@).len() > 0 ==> p.command
                    == Some(command_in(bytes@)))
                &&& p.user is None
                &&& p.uptime_secs is None
            },
{
    let inodes = choose|inodes: Set<u64>| #[trigger]
        are_listening(v4, v6, port, inodes) && if inodes == Set::<u64>::empty() {
            Ok::<Seq<ProcessInfoView>, AppErrorView>(processes) == Ok::<
                Seq<ProcessInfoView>,
                AppErrorView,
            >(Seq::empty())
        } else {
            exists|pids: Set<u32>| #[trigger]
                are_holders(fs, inodes, pids) && pids != Set::<u32>::empty() && lists(
                    fs,
                    processes,
                    pids,
                )
        };
    let k = choose|k: int| 0 <= k < processes.len() && processes[k] == p;
    assert(describes(fs, processes[k]));
    let (status, cmdline, cwd) = choose|
        status: Option<String>,
        cmdline: Option<Vec<u8>>,
        cwd: Option<String>,
    |
        {
            &&& #[trigger] call_ensures(F::status, (fs, p.pid), status)
            &&& #[trigger] call_ensures(F::cmdline, (fs, p.pid), cmdline)
            &&& #[trigger] call_ensures(F::cwd, (fs, p.pid), cwd)
            &&& p == described(p.pid, opt_text(status), opt_bytes(cmdline), opt_text(cwd))
        };
    assert(call_ensures(F::status, (fs, p.pid), status));
    assert(call_ensures(F::cmdline, (fs, p.pid), cmdline));
    assert(call_ensures(F::cwd, (fs, p.pid), cwd));
}

} // verus!

//! Linux: the socket tables under `/proc/net` name the sockets that listen on a
//! port, and the descriptors under `/proc/<pid>/fd` name the processes that hold
//! them.
//!
//! ```text
//! /proc/net/tcp  --(port)-->  inode  --(inode)-->  pid
//! ```

use std::collections::HashSet;

use vstd::pervasive::arbitrary;
use vstd::prelude::*;
use vstd::slice::slice_subrange;

use crate::error::{AppError, AppErrorView};
use crate::process::{infos, opt_text, ProcessInfo, ProcessInfoView};
use crate::text::{
    after_last, all_digits, chars_of, dec, decimal, decode, decoded, digit, digit_of, ends_with,
    has_prefix, has_suffix, lines, number, parse, parse_number, rest_after_last, split_lines,
    split_words, starts_with, text_of, texts, trim, trimmed, views, words,
};

pub mod laws;

verus! {

broadcast use vstd::std_specs::hash::group_hash_axioms;

// ---------------------------------------------------------------------------
// Socket tables
// ---------------------------------------------------------------------------

/// One row of a socket table.
#[derive(Debug, Clone, Copy, PartialEq, Eq, Structural)]
pub struct ProcNetEntry {
    pub local_port: u16,
    pub state: u8,
    pub inode: u64,
}

/// The port in an address such as `0100007F:0BB8`: the four hexadecimal digits
/// after the last colon, and nothing else.
pub open spec fn address_port(address: Seq<char>) -> Option<u16> {
    let hex = after_last(address, ':');
    if hex.len() == 4 && all_digits(hex, 16) {
        Some(number(hex, 16) as u16)
    } else {
        None
    }
}

/// The row in a line of a socket table. The second word is the local address, the
/// fourth the state in hexadecimal, the tenth the inode.
pub open spec fn table_entry(line: Seq<char>) -> Option<ProcNetEntry> {
    let ws = words(line);
    if ws.len() < 10 {
        None
    } else {
        match (
            address_port(ws[1]),
            parse(ws[3], 16, u8::MAX as nat),
            parse(ws[9], 10, u64::MAX as nat),
        ) {
            (Some(local_port), Some(state), Some(inode)) => Some(
                ProcNetEntry { local_port, state: state as u8, inode: inode as u64 },
            ),
            _ => None,
        }
    }
}

/// The rows in some lines of a socket table, in order. Lines that hold no row are
/// skipped.
pub open spec fn entries_in(ls: Seq<Seq<char>>) -> Seq<ProcNetEntry>
    decreases ls.len(),
{
    if ls.len() == 0 {
        Seq::empty()
    } else {
        let before = entries_in(ls.drop_last());
        match table_entry(ls.last()) {
            Some(entry) => before.push(entry),
            None => before,
        }
    }
}

/// The rows of a socket table. Its first line is a heading.
pub open spec fn table_entries(contents: Seq<char>) -> Seq<ProcNetEntry> {
    let ls = lines(contents);
    if ls.len() == 0 {
        Seq::empty()
    } else {
        entries_in(ls.skip(1))
    }
}

/// Whether all characters are digits in the given radix.
fn only_digits(s: &[char], radix: u8) -> (r: bool)
    ensures
        r == all_digits(s@, radix as nat),
{
    let mut i: usize = 0;
    while i < s.len()
        invariant
            i <= s@.len(),
            forall|k: int| 0 <= k < i ==> digit(#[trigger] s@[k]) < radix,
        decreases s@.len() - i,
    {
        if digit_of(s[i]) >= radix {
            return false;
        }
        i += 1;
    }
    true
}

pub proof fn lemma_four_digits(hex: Seq<char>)
    requires
        hex.len() == 4,
        all_digits(hex, 16),
    ensures
        number(hex, 16) <= 0xffff,
        parse(hex, 16, 0xffff) == Some(number(hex, 16)),
{
    reveal_with_fuel(number, 5);
    assert(digit(hex[0]) < 16 && digit(hex[1]) < 16 && digit(hex[2]) < 16 && digit(hex[3]) < 16);
    let a = hex.drop_last();
    let b = a.drop_last();
    let c = b.drop_last();
    assert(hex.last() == hex[3] && a.last() == hex[2] && b.last() == hex[1] && c.last() == hex[0]);
}

/// The port in an address of a socket table.
pub fn port_from_address(local_address: &str) -> (r: Option<u16>)
    ensures
        r == address_port(local_address@),
{
    let chars = chars_of(local_address);
    port_in(chars.as_slice())
}

fn port_in(address: &[char]) -> (r: Option<u16>)
    ensures
        r == address_port(address@),
{
    let hex = rest_after_last(address, ':');
    if hex.len() != 4 || !only_digits(hex, 16) {
        return None;
    }
    proof {
        lemma_four_digits(hex@);
    }
    match parse_number(hex, 16, 0xffff) {
        Some(port) => Some(port as u16),
        None => None,
    }
}

/// The row in a line of a socket table.
pub fn parse_proc_net_line(line: &[char]) -> (r: Option<ProcNetEntry>)
    ensures
        r == table_entry(line@),
{
    let ws = split_words(line);
    let ghost all = words(line@);
    if ws.len() < 10 {
        return None;
    }
    proof {
        assert(all[1] == ws@[1]@ && all[3] == ws@[3]@ && all[9] == ws@[9]@);
    }
    match (port_in(ws[1]), parse_number(ws[3], 16, 0xff), parse_number(
        ws[9],
        10,
        0xffff_ffff_ffff_ffff,
    )) {
        (Some(local_port), Some(state), Some(inode)) => Some(
            ProcNetEntry { local_port, state: state as u8, inode },
        ),
        _ => None,
    }
}

/// The rows of a socket table.
pub fn parse_proc_net_tcp(contents: &str) -> (r: Vec<ProcNetEntry>)
    ensures
        r@ == table_entries(contents@),
{
    let chars = chars_of(contents);
    let ls = split_lines(chars.as_slice());
    let ghost all = lines(contents@);
    let mut out: Vec<ProcNetEntry> = Vec::new();
    if ls.len() == 0 {
        return out;
    }
    let ghost rest = all.skip(1);
    let mut i: usize = 1;
    assert(rest.take(0) == Seq::<Seq<char>>::empty());
    while i < ls.len()
        invariant
            1 <= i <= ls@.len(),
            all == views(ls@),
            rest == all.skip(1),
            out@ == entries_in(rest.take(i - 1)),
        decreases ls@.len() - i,
    {
        proof {
            assert(rest.take(i as int).drop_last() == rest.take(i - 1));
            assert(rest.take(i as int).last() == ls@[i as int]@);
        }
        if let Some(entry) = parse_proc_net_line(ls[i]) {
            out.push(entry);
        }
        i += 1;
    }
    assert(rest.take(rest.len() as int) == rest);
    out
}

// ---------------------------------------------------------------------------
// Status and command line of a process
// ---------------------------------------------------------------------------

/// The name in a line of a status file, if it holds one.
pub open spec fn name_in(line: Seq<char>) -> Option<Seq<char>> {
    if starts_with(line, "Name:"@) && trim(line.skip(5)).len() > 0 {
        Some(trim(line.skip(5)))
    } else {
        None
    }
}

/// The first name in some lines of a status file.
pub open spec fn first_name(ls: Seq<Seq<char>>) -> Option<Seq<char>>
    decreases ls.len(),
{
    if ls.len() == 0 {
        None
    } else {
        match first_name(ls.drop_last()) {
            Some(name) => Some(name),
            None => name_in(ls.last()),
        }
    }
}

/// The name in a status file.
pub fn parse_status_name(status: &str) -> (r: Option<String>)
    ensures
        opt_text(r) == first_name(lines(status@)),
{
    let chars = chars_of(status);
    let ls = split_lines(chars.as_slice());
    let ghost all = lines(status@);
    let mut i: usize = 0;
    assert(all.take(0) == Seq::<Seq<char>>::empty());
    while i < ls.len()
        invariant
            i <= ls@.len(),
            all == views(ls@),
            all == lines(status@),
            first_name(all.take(i as int)) is None,
        decreases ls@.len() - i,
    {
        let line = ls[i];
        proof {
            reveal_strlit("Name:");
            assert(all.take(i + 1).drop_last() == all.take(i as int));
            assert(all.take(i + 1).last() == line@);
        }
        if has_prefix(line, "Name:") {
            assert(line@.subrange(5, line@.len() as int) == line@.skip(5));
            let name = trimmed(slice_subrange(line, 5, line.len()));
            if name.len() > 0 {
                proof {
                    lemma_first_name(all, i + 1);
                }
                return Some(text_of(name));
            }
        }
        i += 1;
    }
    assert(all.take(all.len() as int) == all);
    None
}

proof fn lemma_first_name(ls: Seq<Seq<char>>, n: int)
    requires
        0 <= n <= ls.len(),
        first_name(ls.take(n)) is Some,
    ensures
        first_name(ls) == first_name(ls.take(n)),
    decreases ls.len() - n,
{
    if n < ls.len() {
        assert(ls.take(n + 1).drop_last() == ls.take(n));
        lemma_first_name(ls, n + 1);
    } else {
        assert(ls.take(n) == ls);
    }
}

/// A command line whose arguments are separated by NUL characters, with spaces in
/// their place and no white space at either end.
pub open spec fn spaced(text: Seq<char>) -> Seq<char> {
    trim(
        text.map_values(
            |c: char|
                if c == '\0' {
                    ' '
                } else {
                    c
                },
        ),
    )
}

/// The bytes without one NUL at their end, if they have one.
pub open spec fn drop_nul(bytes: Seq<u8>) -> Seq<u8> {
    if bytes.len() > 0 && bytes.last() == 0 {
        bytes.drop_last()
    } else {
        bytes
    }
}

/// A command line whose arguments are separated by NUL characters, with spaces in
/// their place and no white space at either end.
pub fn separate_arguments(text: &str) -> (out: String)
    ensures
        out@ == spaced(text@),
{
    let chars = chars_of(text);
    let mut shown: Vec<char> = Vec::new();
    let mut i: usize = 0;
    while i < chars.len()
        invariant
            i <= chars@.len(),
            shown@.len() == i,
            forall|k: int|
                0 <= k < i ==> #[trigger] shown@[k] == if chars@[k] == '\0' {
                    ' '
                } else {
                    chars@[k]
                },
        decreases chars@.len() - i,
    {
        let c = chars[i];
        shown.push(
            if c == '\0' {
                ' '
            } else {
                c
            },
        );
        i += 1;
    }
    assert(shown@ =~= chars@.map_values(
        |c: char|
            if c == '\0' {
                ' '
            } else {
                c
            },
    ));
    text_of(trimmed(shown.as_slice()))
}

/// The command line in the bytes of a `cmdline` file.
pub open spec fn command_in(cmdline: Seq<u8>) -> Seq<char> {
    if cmdline.len() == 0 {
        Seq::empty()
    } else {
        spaced(decoded(drop_nul(cmdline)))
    }
}

/// The command line in the bytes of a `cmdline` file.
pub fn parse_cmdline(cmdline: &[u8]) -> (out: String)
    ensures
        out@ == command_in(cmdline@),
{
    if cmdline.len() == 0 {
        return String::new();
    }
    let end: usize = if cmdline[cmdline.len() - 1] == 0 {
        cmdline.len() - 1
    } else {
        cmdline.len()
    };
    assert(cmdline@.subrange(0, end as int) == drop_nul(cmdline@));
    separate_arguments(decode(slice_subrange(cmdline, 0, end)).as_str())
}

// ---------------------------------------------------------------------------
// Names and links under /proc
// ---------------------------------------------------------------------------

/// Whether a name under `/proc` is that of a process.
pub open spec fn pid_dir(name: Seq<char>) -> bool {
    name.len() > 0 && all_digits(name, 10)
}

/// Whether a name under `/proc` is that of a process.
pub fn is_pid_dir(name: &str) -> (r: bool)
    ensures
        r == pid_dir(name@),
{
    let chars = chars_of(name);
    chars.len() > 0 && only_digits(chars.as_slice(), 10)
}

/// The inode in the target of a link such as `socket:[12345]`.
pub open spec fn link_inode(link: Seq<char>) -> Option<u64> {
    if starts_with(link, "socket:["@) && ends_with(link.skip(8), "]"@) {
        match parse(link.skip(8).drop_last(), 10, u64::MAX as nat) {
            Some(inode) => Some(inode as u64),
            None => None,
        }
    } else {
        None
    }
}

/// The inode in the target of a link, if it is a link to a socket.
pub fn inode_from_socket_link(link: &str) -> (r: Option<u64>)
    ensures
        r == link_inode(link@),
{
    proof {
        reveal_strlit("socket:[");
        reveal_strlit("]");
    }
    let chars = chars_of(link);
    if !has_prefix(chars.as_slice(), "socket:[") {
        return None;
    }
    let rest = slice_subrange(chars.as_slice(), 8, chars.len());
    assert(rest@ == link@.skip(8));
    let bracket = chars_of("]");
    if !has_suffix(rest, bracket.as_slice()) {
        return None;
    }
    assert(rest@.subrange(0, rest@.len() - 1) == rest@.drop_last());
    parse_number(slice_subrange(rest, 0, rest.len() - 1), 10, 0xffff_ffff_ffff_ffff)
}

// ---------------------------------------------------------------------------
// Asking the system
// ---------------------------------------------------------------------------

/// The socket tables that are read.
#[derive(Debug, Clone, Copy, PartialEq, Eq, Structural)]
pub enum TcpTable {
    V4,
    V6,
}

impl TcpTable {
    /// Where the table is.
    pub open spec fn spec_path(self) -> Seq<char> {
        match self {
            TcpTable::V4 => "/proc/net/tcp"@,
            TcpTable::V6 => "/proc/net/tcp6"@,
        }
    }

    /// Where the table is.
    pub fn path(self) -> (r: &'static str)
        ensures
            r@ == self.spec_path(),
    {
        match self {
            TcpTable::V4 => "/proc/net/tcp",
            TcpTable::V6 => "/proc/net/tcp6",
        }
    }
}

/// What came of reading a socket table.
#[derive(Debug, PartialEq, Eq)]
pub enum TableRead {
    /// The table holds this text.
    Contents { text: String },
    /// There is no such table, which is no failure.
    Missing,
    /// The table could not be read; with the message of the system.
    Failed { detail: String },
}

/// What is read under `/proc`.
pub trait ProcFs {
    /// Read a socket table.
    fn read_table(&self, table: TcpTable) -> TableRead;

    /// The names under `/proc`; none if it cannot be read.
    fn entries(&self) -> Vec<String>;

    /// The targets of the links under `/proc/<name>/fd`; none if it cannot be read.
    fn links(&self, name: &String) -> Vec<String>;

    /// The text of `/proc/<pid>/status`, if it can be read.
    fn status(&self, pid: u32) -> Option<String>;

    /// The bytes of `/proc/<pid>/cmdline`, if they can be read.
    fn cmdline(&self, pid: u32) -> Option<Vec<u8>>;

    /// The target of the link `/proc/<pid>/cwd`, if it can be read.
    fn cwd(&self, pid: u32) -> Option<String>;
}

/// The state of a socket that listens.
pub const PORT_IN_KERNEL: u8 = 0x0A;

/// Whether one of the rows is that of a socket with the given inode that listens on
/// `port`.
pub open spec fn entry_shows(entries: Seq<ProcNetEntry>, port: u16, inode: u64) -> bool {
    exists|i: int|
        0 <= i < entries.len() && #[trigger] entries[i] == (ProcNetEntry {
            local_port: port,
            state: PORT_IN_KERNEL,
            inode,
        })
}

/// Whether a table shows that a socket with the given inode listens on `port`.
pub open spec fn table_shows(read: TableRead, port: u16, inode: u64) -> bool {
    match read {
        TableRead::Contents { text } => entry_shows(table_entries(text@), port, inode),
        _ => false,
    }
}

/// The error for a table that could not be read.
pub open spec fn table_error(table: TcpTable, read: TableRead) -> Option<AppErrorView> {
    match read {
        TableRead::Failed { detail } => Some(
            AppErrorView::Io { path: table.spec_path(), source: detail@ },
        ),
        _ => None,
    }
}

/// Whether these are the tables as they were read. The second is read only if the
/// first could be.
pub open spec fn tables_read<F: ProcFs + ?Sized>(fs: &F, v4: TableRead, v6: TableRead) -> bool {
    &&& call_ensures(F::read_table, (fs, TcpTable::V4), v4)
    &&& v4 !is Failed ==> call_ensures(F::read_table, (fs, TcpTable::V6), v6)
}

/// What is wrong with the tables, if one could not be read.
pub open spec fn tables_error(v4: TableRead, v6: TableRead) -> Option<AppErrorView> {
    match table_error(TcpTable::V4, v4) {
        Some(e) => Some(e),
        None => table_error(TcpTable::V6, v6),
    }
}

/// Whether these are the inodes of the sockets that listen on `port`.
pub open spec fn are_listening(v4: TableRead, v6: TableRead, port: u16, inodes: Set<u64>) -> bool {
    forall|inode: u64| #[trigger]
        inodes.contains(inode) <==> table_shows(v4, port, inode) || table_shows(v6, port, inode)
}

/// Add the inodes of the sockets that listen on `port` according to a table.
fn collect_inodes(contents: &String, port: u16, inodes: &mut HashSet<u64>)
    ensures
        forall|inode: u64| #[trigger]
            final(inodes)@.contains(inode) <==> (old(inodes)@.contains(inode) || table_shows(
                TableRead::Contents { text: *contents },
                port,
                inode,
            )),
{
    let entries = parse_proc_net_tcp(contents.as_str());
    let ghost before = inodes@;
    let mut i: usize = 0;
    while i < entries.len()
        invariant
            i <= entries@.len(),
            forall|inode: u64| #[trigger]
                inodes@.contains(inode) <==> (before.contains(inode) || entry_shows(
                    entries@.take(i as int),
                    port,
                    inode,
                )),
        decreases entries@.len() - i,
    {
        let entry = entries[i];
        let ghost old_inodes = inodes@;
        if entry.local_port == port && entry.state == PORT_IN_KERNEL {
            inodes.insert(entry.inode);
        }
        proof {
            let then = entries@.take(i as int);
            let now = entries@.take(i + 1);
            assert(now == then.push(entry));
            assert forall|inode: u64| #[trigger] inodes@.contains(inode) <==> (before.contains(inode)
                || entry_shows(now, port, inode)) by {
                let wanted = ProcNetEntry { local_port: port, state: PORT_IN_KERNEL, inode };
                if entry_shows(then, port, inode) {
                    let k = choose|k: int| 0 <= k < then.len() && #[trigger] then[k] == wanted;
                    assert(now[k] == wanted);
                }
                if entry_shows(now, port, inode) {
                    let k = choose|k: int| 0 <= k < now.len() && #[trigger] now[k] == wanted;
                    if k < i {
                        assert(then[k] == wanted);
                    }
                }
                if entry == wanted {
                    assert(now[i as int] == wanted);
                }
            }
        }
        i += 1;
    }
    assert(entries@.take(entries@.len() as int) == entries@);
}

/// The inodes of the sockets that listen on `port`.
pub fn tcp_inodes_for_port<F: ProcFs + ?Sized>(port: u16, fs: &F) -> (r: Result<
    HashSet<u64>,
    AppError,
>)
    ensures
        exists|v4: TableRead, v6: TableRead| #[trigger]
            tables_read(fs, v4, v6) && match r {
                Ok(inodes) => tables_error(v4, v6) is None && are_listening(v4, v6, port, inodes@),
                Err(e) => tables_error(v4, v6) == Some(e@),
            },
{
    let mut inodes: HashSet<u64> = HashSet::new();
    let v4 = fs.read_table(TcpTable::V4);
    match &v4 {
        TableRead::Contents { text } => {
            collect_inodes(text, port, &mut inodes);
        },
        TableRead::Missing => {},
        TableRead::Failed { detail } => {
            assert(tables_read(fs, v4, v4));
            return Err(AppError::io(TcpTable::V4.path(), detail.clone()));
        },
    }
    let v6 = fs.read_table(TcpTable::V6);
    assert(tables_read(fs, v4, v6));
    match &v6 {
        TableRead::Contents { text } => {
            collect_inodes(text, port, &mut inodes);
        },
        TableRead::Missing => {},
        TableRead::Failed { detail } => {
            return Err(AppError::io(TcpTable::V6.path(), detail.clone()));
        },
    }
    Ok(inodes)
}

/// Whether a port is free, given the tables as they were read.
pub open spec fn free(port: u16, v4: TableRead, v6: TableRead) -> Result<bool, AppErrorView> {
    match tables_error(v4, v6) {
        Some(e) => Err(e),
        None => Ok(
            forall|inode: u64| !table_shows(v4, port, inode) && !table_shows(v6, port, inode),
        ),
    }
}

/// Whether nothing listens on `port`.
pub fn is_port_free<F: ProcFs + ?Sized>(port: u16, fs: &F) -> (r: Result<bool, AppError>)
    ensures
        exists|v4: TableRead, v6: TableRead| #[trigger]
            tables_read(fs, v4, v6) && match r {
                Ok(nothing) => free(port, v4, v6) == Ok::<bool, AppErrorView>(nothing),
                Err(e) => free(port, v4, v6) == Err::<bool, AppErrorView>(e@),
            },
{
    match tcp_inodes_for_port(port, fs) {
        Err(e) => Err(e),
        Ok(inodes) => {
            proof {
                let (v4, v6) = choose|v4: TableRead, v6: TableRead| #[trigger]
                    tables_read(fs, v4, v6) && tables_error(v4, v6) is None && are_listening(
                        v4,
                        v6,
                        port,
                        inodes@,
                    );
                assert(tables_read(fs, v4, v6));
                if forall|inode: u64| !inodes@.contains(inode) {
                    assert(inodes@ =~= Set::empty());
                    assert forall|inode: u64|
                        !table_shows(v4, port, inode) && !table_shows(v6, port, inode) by {
                        assert(!inodes@.contains(inode));
                    }
                } else {
                    let inode = choose|inode: u64| inodes@.contains(inode);
                    assert(table_shows(v4, port, inode) || table_shows(v6, port, inode));
                }
            }
            Ok(inodes.is_empty())
        },
    }
}

/// The number of the process that a name under `/proc` is that of.
pub open spec fn dir_pid(name: Seq<char>) -> Option<u32> {
    if pid_dir(name) {
        match parse(name, 10, u32::MAX as nat) {
            Some(pid) => Some(pid as u32),
            None => None,
        }
    } else {
        None
    }
}

/// Whether one of the links is a link to a socket with one of the given inodes.
pub open spec fn links_to(links: Seq<Seq<char>>, targets: Set<u64>) -> bool {
    exists|i: int|
        0 <= i < links.len() && (link_inode(#[trigger] links[i]) matches Some(inode)
            && targets.contains(inode))
}

/// Whether these are the names under `/proc`, and for each process the targets of
/// its links, as they were read.
pub open spec fn proc_read<F: ProcFs + ?Sized>(
    fs: &F,
    names: Vec<String>,
    links: Seq<Vec<String>>,
) -> bool {
    &&& call_ensures(F::entries, (fs,), names)
    &&& links.len() == names@.len()
    &&& forall|i: int|
        0 <= i < names@.len() && dir_pid((#[trigger] names@[i])@) is Some ==> call_ensures(
            F::links,
            (fs, &names@[i]),
            links[i],
        )
}

/// Whether `pid` is the number of a process that holds a socket with one of the
/// given inodes.
pub open spec fn holder(
    names: Seq<String>,
    links: Seq<Vec<String>>,
    targets: Set<u64>,
    pid: u32,
) -> bool {
    exists|i: int|
        0 <= i < names.len() && dir_pid((#[trigger] names[i])@) == Some(pid) && links_to(
            texts(links[i]@),
            targets,
        )
}

/// Whether these are the numbers of the processes that hold a socket with one of
/// the given inodes.
pub open spec fn are_holders<F: ProcFs + ?Sized>(fs: &F, targets: Set<u64>, pids: Set<u32>) -> bool {
    exists|names: Vec<String>, links: Seq<Vec<String>>| #[trigger]
        proc_read(fs, names, links) && forall|pid: u32| #[trigger]
            pids.contains(pid) <==> holder(names@, links, targets, pid)
}

/// Whether one of the links is a link to a socket with one of the given inodes.
fn any_links_to(links: &Vec<String>, targets: &HashSet<u64>) -> (r: bool)
    ensures
        r == links_to(texts(links@), targets@),
{
    let ghost all = texts(links@);
    let mut i: usize = 0;
    while i < links.len()
        invariant
            i <= links@.len(),
            all == texts(links@),
            forall|k: int|
                0 <= k < i ==> !(link_inode(#[trigger] all[k]) matches Some(inode)
                    && targets@.contains(inode)),
        decreases links@.len() - i,
    {
        assert(all[i as int] == links@[i as int]@);
        if let Some(inode) = inode_from_socket_link(links[i].as_str()) {
            if targets.contains(&inode) {
                assert(link_inode(all[i as int]) == Some(inode));
                return true;
            }
        }
        i += 1;
    }
    false
}

/// The number of the process that a name under `/proc` is that of.
fn pid_of_dir(name: &String) -> (r: Option<u32>)
    ensures
        r == dir_pid(name@),
{
    if !is_pid_dir(name.as_str()) {
        return None;
    }
    let chars = chars_of(name.as_str());
    match parse_number(chars.as_slice(), 10, 0xffff_ffff) {
        Some(pid) => Some(pid as u32),
        None => None,
    }
}

/// The processes that hold a socket with one of the given inodes. If there is no
/// inode, nothing is read.
pub fn pids_holding_any_inode<F: ProcFs + ?Sized>(targets: &HashSet<u64>, fs: &F) -> (r: HashSet<
    u32,
>)
    ensures
        targets@ == Set::<u64>::empty() ==> r@ == Set::<u32>::empty(),
        targets@ != Set::<u64>::empty() ==> are_holders(fs, targets@, r@),
{
    let mut pids: HashSet<u32> = HashSet::new();
    if targets.is_empty() {
        return pids;
    }
    let names = fs.entries();
    let ghost mut links: Seq<Vec<String>> = Seq::empty();
    let mut i: usize = 0;
    while i < names.len()
        invariant
            i <= names@.len(),
            call_ensures(F::entries, (fs,), names),
            links.len() == i,
            forall|k: int|
                0 <= k < i && dir_pid((#[trigger] names@[k])@) is Some ==> call_ensures(
                    F::links,
                    (fs, &names@[k]),
                    links[k],
                ),
            forall|pid: u32| #[trigger]
                pids@.contains(pid) <==> holder(names@.take(i as int), links, targets@, pid),
        decreases names@.len() - i,
    {
        let ghost old_links = links;
        let ghost old_pids = pids@;
        let ghost name = names@[i as int];
        match pid_of_dir(&names[i]) {
            None => {
                proof {
                    links = links.push(arbitrary());
                }
            },
            Some(pid) => {
                let held = fs.links(&names[i]);
                if any_links_to(&held, targets) {
                    pids.insert(pid);
                }
                proof {
                    links = links.push(held);
                }
            },
        }
        proof {
            let now = names@.take(i + 1);
            let then = names@.take(i as int);
            assert forall|pid: u32| #[trigger]
                pids@.contains(pid) <==> holder(now, links, targets@, pid) by {
                if holder(then, old_links, targets@, pid) {
                    let k = choose|k: int|
                        0 <= k < then.len() && dir_pid((#[trigger] then[k])@) == Some(pid)
                            && links_to(texts(old_links[k]@), targets@);
                    assert(now[k] == then[k] && links[k] == old_links[k]);
                }
                if holder(now, links, targets@, pid) {
                    let k = choose|k: int|
                        0 <= k < now.len() && dir_pid((#[trigger] now[k])@) == Some(pid)
                            && links_to(texts(links[k]@), targets@);
                    if k < i {
                        assert(now[k] == then[k] && links[k] == old_links[k]);
                        assert(holder(then, old_links, targets@, pid));
                    }
                }
                if dir_pid(name@) == Some(pid) && links_to(texts(links[i as int]@), targets@) {
                    assert(now[i as int] == name);
                }
            }
        }
        i += 1;
    }
    proof {
        assert(names@.take(names@.len() as int) =~= names@);
        assert(proc_read(fs, names, links));
    }
    pids
}

/// The processes that hold the sockets that listen on `port`.
///
/// Without a socket the port is free, and nothing is searched. With a socket whose
/// holder cannot be seen the port is in use all the same, and access is denied.
pub fn pids_or_access_denied<S: FnOnce(&HashSet<u64>) -> HashSet<u32>>(
    port: u16,
    inodes: &HashSet<u64>,
    scan: S,
) -> (r: Result<HashSet<u32>, AppError>)
    requires
        inodes@ != Set::<u64>::empty() ==> call_requires(scan, (inodes,)),
    ensures
        inodes@ == Set::<u64>::empty() ==> (r matches Ok(pids) && pids@ == Set::<u32>::empty()),
        inodes@ != Set::<u64>::empty() ==> exists|pids: HashSet<u32>| #[trigger]
            call_ensures(scan, (inodes,), pids) && if pids@ == Set::<u32>::empty() {
                r matches Err(e) && e@ == (AppErrorView::AccessDenied { port })
            } else {
                r == Ok::<HashSet<u32>, AppError>(pids)
            },
{
    if inodes.is_empty() {
        let none: HashSet<u32> = HashSet::new();
        return Ok(none);
    }
    let pids = scan(inodes);
    if pids.is_empty() {
        return Err(AppError::AccessDenied { port });
    }
    Ok(pids)
}

/// The bytes inside an optional list.
pub open spec fn opt_bytes(o: Option<Vec<u8>>) -> Option<Seq<u8>> {
    match o {
        Some(bytes) => Some(bytes@),
        None => None,
    }
}

/// What is known of a process, given what could be read of it. A process without a
/// name goes by its number.
pub open spec fn described(
    pid: u32,
    status: Option<Seq<char>>,
    cmdline: Option<Seq<u8>>,
    cwd: Option<Seq<char>>,
) -> ProcessInfoView {
    ProcessInfoView {
        pid,
        name: match status {
            Some(text) => match first_name(lines(text)) {
                Some(name) => name,
                None => dec(pid as nat),
            },
            None => dec(pid as nat),
        },
        command: match cmdline {
            Some(bytes) => if command_in(bytes).len() > 0 {
                Some(command_in(bytes))
            } else {
                None
            },
            None => None,
        },
        user: None,
        uptime_secs: None,
        cwd,
    }
}

/// What is known of a process, given what could be read of it.
pub fn describe(
    pid: u32,
    status: Option<String>,
    cmdline: Option<Vec<u8>>,
    cwd: Option<String>,
) -> (r: ProcessInfo)
    ensures
        r@ == described(pid, opt_text(status), opt_bytes(cmdline), opt_text(cwd)),
{
    let found = match &status {
        Some(text) => parse_status_name(text.as_str()),
        None => None,
    };
    let name = match found {
        Some(name) => name,
        None => decimal(pid as u64),
    };
    let command = match &cmdline {
        Some(bytes) => {
            let line = parse_cmdline(bytes.as_slice());
            let chars = chars_of(line.as_str());
            if chars.len() > 0 {
                Some(line)
            } else {
                None
            }
        },
        None => None,
    };
    ProcessInfo { pid, name, command, user: None, uptime_secs: None, cwd }
}

/// Whether this is what could be read of the process, when it was read.
pub open spec fn describes<F: ProcFs + ?Sized>(fs: &F, process: ProcessInfoView) -> bool {
    exists|status: Option<String>, cmdline: Option<Vec<u8>>, cwd: Option<String>|
        {
            &&& #[trigger] call_ensures(F::status, (fs, process.pid), status)
            &&& #[trigger] call_ensures(F::cmdline, (fs, process.pid), cmdline)
            &&& #[trigger] call_ensures(F::cwd, (fs, process.pid), cwd)
            &&& process == described(
                process.pid,
                opt_text(status),
                opt_bytes(cmdline),
                opt_text(cwd),
            )
        }
}

/// What can be read of a process.
pub fn enrich<F: ProcFs + ?Sized>(pid: u32, fs: &F) -> (r: ProcessInfo)
    ensures
        r.pid == pid,
        describes(fs, r@),
{
    let status = fs.status(pid);
    let cmdline = fs.cmdline(pid);
    let cwd = fs.cwd(pid);
    let ghost read = (status, cmdline, cwd);
    let process = describe(pid, status, cmdline, cwd);
    proof {
        assert(process@ == described(
            process@.pid,
            opt_text(read.0),
            opt_bytes(read.1),
            opt_text(read.2),
        ));
    }
    process
}

/// Whether the list holds each of the processes once, and nothing else, each as it
/// was read.
pub open spec fn lists<F: ProcFs + ?Sized>(
    fs: &F,
    processes: Seq<ProcessInfoView>,
    pids: Set<u32>,
) -> bool {
    &&& forall|i: int, j: int|
        0 <= i < j < processes.len() ==> (#[trigger] processes[i]).pid != (
        #[trigger] processes[j]).pid
    &&& forall|pid: u32| #[trigger]
        pids.contains(pid) <==> exists|i: int|
            0 <= i < processes.len() && (#[trigger] processes[i]).pid == pid
    &&& forall|i: int| 0 <= i < processes.len() ==> describes(fs, #[trigger] processes[i])
}

/// The numbers of a list of processes.
spec fn numbers(processes: Seq<ProcessInfo>) -> Seq<u32> {
    processes.map_values(|p: ProcessInfo| p.pid)
}

/// The processes, each once, as they can be read.
fn enrich_pids<F: ProcFs + ?Sized>(pids: &HashSet<u32>, fs: &F) -> (r: Vec<ProcessInfo>)
    ensures
        lists(fs, infos(r@), pids@),
        r@.len() == pids@.len(),
{
    let mut out: Vec<ProcessInfo> = Vec::new();
    for pid in it: pids.iter()
        invariant
            it.seq().unref().to_set() == pids@,
            it.seq().unref().no_duplicates(),
            it.seq().len() == pids@.len(),
            it.seq().unref().len() == it.seq().len(),
            out@.len() == it.index(),
            numbers(out@) =~= it.seq().unref().take(it.index()),
            it.index() == it.seq().len() ==> numbers(out@) =~= it.seq().unref(),
            forall|k: int| 0 <= k < out@.len() ==> describes(fs, (#[trigger] out@[k])@),
    {
        out.push(enrich(*pid, fs));
        proof {
            let all = it.seq().unref();
            assert(all.take(all.len() as int) =~= all);
        }
    }
    proof {
        let all = numbers(out@);
        assert(all.to_set() == pids@);
        let processes = infos(out@);
        assert forall|i: int, j: int| 0 <= i < j < processes.len() implies (
        #[trigger] processes[i]).pid != (#[trigger] processes[j]).pid by {
            assert(all[i] != all[j]);
        }
        assert forall|pid: u32| #[trigger]
            pids@.contains(pid) <==> exists|i: int|
                0 <= i < processes.len() && (#[trigger] processes[i]).pid == pid by {
            if pids@.contains(pid) {
                assert(all.to_set().contains(pid));
                let i = choose|i: int| 0 <= i < all.len() && all[i] == pid;
                assert(processes[i].pid == pid);
            }
            if exists|i: int| 0 <= i < processes.len() && (#[trigger] processes[i]).pid == pid {
                let i = choose|i: int|
                    0 <= i < processes.len() && (#[trigger] processes[i]).pid == pid;
                assert(all[i] == pid);
                assert(all.to_set().contains(pid));
            }
        }
    }
    out
}

/// Whether this is what is found on a port, given the tables as they were read.
///
/// If no socket listens, nothing is found. If one does, the processes that hold it
/// are found, or, if none can be seen, access is denied.
pub open spec fn finds<F: ProcFs + ?Sized>(
    fs: &F,
    port: u16,
    v4: TableRead,
    v6: TableRead,
    r: Result<Seq<ProcessInfoView>, AppErrorView>,
) -> bool {
    match tables_error(v4, v6) {
        Some(e) => r == Err::<Seq<ProcessInfoView>, AppErrorView>(e),
        None => exists|inodes: Set<u64>| #[trigger]
            are_listening(v4, v6, port, inodes) && if inodes == Set::<u64>::empty() {
                r == Ok::<Seq<ProcessInfoView>, AppErrorView>(Seq::empty())
            } else {
                exists|pids: Set<u32>| #[trigger]
                    are_holders(fs, inodes, pids) && if pids == Set::<u32>::empty() {
                        r == Err::<Seq<ProcessInfoView>, AppErrorView>(
                            AppErrorView::AccessDenied { port },
                        )
                    } else {
                        r matches Ok(processes) && lists(fs, processes, pids)
                    }
            },
    }
}

/// What is found on a port, as mathematical text.
pub open spec fn found_view(r: Result<Vec<ProcessInfo>, AppError>) -> Result<
    Seq<ProcessInfoView>,
    AppErrorView,
> {
    match r {
        Ok(processes) => Ok(infos(processes@)),
        Err(e) => Err(e@),
    }
}

/// The processes that listen on `port`, each once.
pub fn get_processes_on_port<F: ProcFs + ?Sized>(port: u16, fs: &F) -> (r: Result<
    Vec<ProcessInfo>,
    AppError,
>)
    ensures
        exists|v4: TableRead, v6: TableRead| #[trigger]
            tables_read(fs, v4, v6) && finds(fs, port, v4, v6, found_view(r)),
{
    let inodes = match tcp_inodes_for_port(port, fs) {
        Err(e) => {
            return Err(e);
        },
        Ok(inodes) => inodes,
    };
    let ghost (v4, v6) = choose|v4: TableRead, v6: TableRead| #[trigger]
        tables_read(fs, v4, v6) && tables_error(v4, v6) is None && are_listening(
            v4,
            v6,
            port,
            inodes@,
        );
    let scan = |targets: &HashSet<u64>| -> (pids: HashSet<u32>)
        ensures
            targets@ != Set::<u64>::empty() ==> are_holders(fs, targets@, pids@),
        { pids_holding_any_inode(targets, fs) };
    let result = match pids_or_access_denied(port, &inodes, scan) {
        Err(e) => Err(e),
        Ok(pids) => {
            let processes = enrich_pids(&pids, fs);
            assert(inodes@ == Set::<u64>::empty() ==> infos(processes@) =~= Seq::empty());
            Ok(processes)
        },
    };
    proof {
        assert(tables_read(fs, v4, v6));
        assert(are_listening(v4, v6, port, inodes@));
        assert(finds(fs, port, v4, v6, found_view(result)));
    }
    result
}

/// A port on which a socket listens is never found to have no processes: either its
/// processes are found, or there is an error.
pub proof fn law_in_use_is_not_free<F: ProcFs + ?Sized>(
    fs: &F,
    port: u16,
    v4: TableRead,
    v6: TableRead,
    inode: u64,
    processes: Seq<ProcessInfoView>,
)
    requires
        table_shows(v4, port, inode) || table_shows(v6, port, inode),
        finds(fs, port, v4, v6, Ok(processes)),
    ensures
        processes.len() > 0,
{
    let inodes = choose|inodes: Set<u64>| #[trigger]
        are_listening(v4, v6, port, inodes) && if inodes == Set::<u64>::empty() {
            Ok::<Seq<ProcessInfoView>, AppErrorView>(processes) == Ok::<
                Seq<ProcessInfoView>,
                AppErrorView,
            >(Seq::empty())
        } else {
            exists|pids: Set<u32>| #[trigger]
                are_holders(fs, inodes, pids) && pids != Set::<u32>::empty() && lists(
                    fs,
                    processes,
                    pids,
                )
        };
    assert(inodes.contains(inode));
    let pids = choose|pids: Set<u32>| #[trigger]
        are_holders(fs, inodes, pids) && pids != Set::<u32>::empty() && lists(fs, processes, pids);
    if forall|pid: u32| !pids.contains(pid) {
        assert(pids =~= Set::empty());
    }
    let pid = choose|pid: u32| pids.contains(pid);
    assert(pids.contains(pid));
}

/// The rows in some lines and some more are those in both, one after the other.
proof fn lemma_entries_concat(a: Seq<Seq<char>>, b: Seq<Seq<char>>)
    ensures
        entries_in(a + b) == entries_in(a) + entries_in(b),
    decreases b.len(),
{
    if b.len() == 0 {
        assert(a + b =~= a);
        assert(entries_in(a) + entries_in(b) =~= entries_in(a));
    } else {
        lemma_entries_concat(a, b.drop_last());
        assert((a + b).drop_last() =~= a + b.drop_last());
        assert(entries_in(a + b) =~= entries_in(a) + entries_in(b));
    }
}

/// A line that holds no row, wherever it stands in a socket table, changes nothing.
pub proof fn law_other_lines_are_skipped(
    before: Seq<Seq<char>>,
    line: Seq<char>,
    after: Seq<Seq<char>>,
)
    requires
        table_entry(line) is None,
    ensures
        entries_in(before + seq![line] + after) == entries_in(before + after),
{
    lemma_entries_concat(before + seq![line], after);
    lemma_entries_concat(before, seq![line]);
    lemma_entries_concat(before, after);
    assert(seq![line].drop_last() =~= Seq::<Seq<char>>::empty());
    assert(entries_in(Seq::<Seq<char>>::empty()) =~= Seq::<ProcNetEntry>::empty());
    assert(entries_in(seq![line]) =~= Seq::<ProcNetEntry>::empty());
    assert(entries_in(before) + Seq::<ProcNetEntry>::empty() =~= entries_in(before));
}

} // verus!

//! What callers of the library can rely on, from what goes in to what comes out.

use vstd::prelude::*;

use crate::app::decisions::{is_yes, law_says_yes};
use crate::app::session::{run, RequestView, Session, SessionView};
use crate::app::{emit, emit_mode, prompt_confirm, shows};
use crate::cli::args::Cli;
use crate::cli::port::laws::law_what_is_named;
use crate::cli::port::{
    ascending, covered, first_error, law_port_reads_back, law_range_reads_back, parse_spec,
    resolve_ports,
};
use crate::error::{AppError, AppErrorView};
use crate::kill::signal::{
    bad_pid, delivery, send_sigkill, send_sigterm, sent_view, signal_target, termination, OsSignals,
    PosixKill, PosixReply, Signal, SignalSender, TerminateReply, WindowsSignals, WindowsTerminate,
};
use crate::kill::{resume_one, terminate_one, Escalation, KillConfig, KillRequest};
use crate::platform::linux::laws::{law_process_directory, law_socket_link};
use crate::platform::linux::{inode_from_socket_link, is_pid_dir};
use crate::process::ProcessInfo;
use crate::render::types::{ports, PortResult, RunMode};
use crate::text::laws::is_blank;
use crate::text::{dec, texts, white};

verus! {

// ---------------------------------------------------------------------------
// Ports
// ---------------------------------------------------------------------------

/// The ports that come out are those that are named, each once, the least first.
pub proof fn law_resolve_ports(specs: &[String], found: Vec<u16>, i: int, j: int, port: u16)
    requires
        call_ensures(resolve_ports, (specs,), Ok(found)),
    ensures
        0 <= i < j < found@.len() ==> found@[i] < found@[j],
        covered(texts(specs@), port) <==> exists|k: int| 0 <= k < found@.len() && found@[k] == port,
        first_error(texts(specs@)) is None,
{
    assert(ascending(found@));
    assert(found@.contains(port) <==> covered(texts(specs@), port));
}

/// Where something is wrong with a specification, no ports come out: the first that
/// something is wrong with is told.
pub proof fn law_resolve_ports_fails(specs: &[String], e: AppError)
    requires
        call_ensures(resolve_ports, (specs,), Err(e)),
    ensures
        first_error(texts(specs@)) == Some(e@),
{
}

/// A port, and a range of ports, are read as they are written.
pub proof fn law_parse_spec(
    single: &str,
    range: &str,
    low: u16,
    high: u16,
    a: Result<(u16, u16), AppError>,
    b: Result<(u16, u16), AppError>,
)
    requires
        1 <= low <= high,
        single@ == dec(low as nat),
        range@ == dec(low as nat) + seq!['-'] + dec(high as nat),
        call_ensures(parse_spec, (single,), a),
        call_ensures(parse_spec, (range,), b),
    ensures
        a == Ok::<(u16, u16), AppError>((low, low)),
        b == Ok::<(u16, u16), AppError>((low, high)),
{
    law_port_reads_back(low);
    law_range_reads_back(low, high);
}

// ---------------------------------------------------------------------------
// A run
// ---------------------------------------------------------------------------

/// A run for which something is wrong with the ports begins by telling that.
pub proof fn law_run_refuses(cli: &Cli, cfg: &KillConfig, s: Session, e: AppErrorView)
    requires
        call_ensures(run, (cli, cfg), s),
        first_error(texts(cli.ports@)) == Some(e),
    ensures
        s@.request() == (RequestView::Complain { message: "error: "@ + e.text() }),
        s@.ports.len() == 0,
{
}

/// A run begins as it was asked to, with the least of the ports that were named.
pub proof fn law_run_begins(cli: &Cli, cfg: &KillConfig, s: Session, port: u16)
    requires
        call_ensures(run, (cli, cfg), s),
        first_error(texts(cli.ports@)) is None,
    ensures
        s@.kill == cli.kill,
        s@.force == cli.force,
        s@.dry_run == cli.dry_run,
        s@.json == cli.json,
        s@.cfg == *cfg,
        s@.ports.contains(port) <==> covered(texts(cli.ports@), port),
        s@.reached.len() == 0,
        covered(texts(cli.ports@), port) ==> {
            &&& s@.request() matches RequestView::Inspect { port: first }
            &&& first <= port
            &&& covered(texts(cli.ports@), first)
        },
{
    let asked = choose|asked: Seq<u16>|
        ascending(asked) && (forall|port: u16|
            #![trigger asked.contains(port)]
            asked.contains(port) <==> covered(texts(cli.ports@), port)) && s@
            == #[trigger] SessionView::with_ports(*cli, *cfg, asked);
    assert(asked.contains(port) <==> covered(texts(cli.ports@), port));
    if covered(texts(cli.ports@), port) {
        let k = choose|k: int| 0 <= k < asked.len() && asked[k] == port;
        assert(asked.contains(asked[0]));
        if k > 0 {
            assert(asked[0] < asked[k]);
        }
    }
}

/// Asked for one port, a run begins by inspecting it.
pub proof fn law_run_inspects(cli: &Cli, cfg: &KillConfig, s: Session, port: u16)
    requires
        call_ensures(run, (cli, cfg), s),
        port >= 1,
        cli.ports@.len() == 1,
        cli.ports@[0]@ == dec(port as nat),
    ensures
        s@.request() == (RequestView::Inspect { port }),
{
    let specs = texts(cli.ports@);
    assert(specs =~= seq![dec(port as nat)]);
    law_port_reads_back(port);
    assert(specs.drop_last() =~= Seq::<Seq<char>>::empty());
    assert(first_error(specs.drop_last()) is None);
    assert(first_error(specs) is None);
    law_what_is_named(port, port, port);
    law_run_begins(cli, cfg, s, port);
    let first = s@.request()->Inspect_port;
    law_what_is_named(port, port, first);
}

// ---------------------------------------------------------------------------
// The user
// ---------------------------------------------------------------------------

/// Without an answer it is no; with one, it is yes exactly for `y` and `yes`.
pub proof fn law_prompt(
    line: &str,
    before: Seq<char>,
    word: Seq<char>,
    after: Seq<char>,
    a: bool,
    b: bool,
)
    requires
        is_blank(before),
        is_blank(after),
        word.len() > 0 ==> !white(word[0]) && !white(word.last()),
        line@ == before + word + after,
        call_ensures(prompt_confirm, (Some(line),), a),
        call_ensures(prompt_confirm, (None,), b),
    ensures
        a <==> is_yes(word),
        !b,
{
    law_says_yes(before, word, after);
}

/// What is written without a mode is what is written when ports were only inspected.
pub proof fn law_emit(results: &[PortResult], json: bool, mode: RunMode, a: String, b: String)
    requires
        call_ensures(emit, (results, json), a),
        call_ensures(emit_mode, (results, json, mode), b),
    ensures
        shows(ports(results@), json, RunMode::Inspect, a@),
        shows(ports(results@), json, mode, b@),
{
}

// ---------------------------------------------------------------------------
// Ending a process
// ---------------------------------------------------------------------------

/// An attempt is at the process and the port that were asked for, and begins with `SIGKILL`
/// if it was asked for with force, with `SIGTERM` if not. At one more port nothing is sent
/// at first.
pub proof fn law_attempts(
    port: u16,
    process: &ProcessInfo,
    force: bool,
    cfg: &KillConfig,
    signal: Signal,
    a: Escalation,
    b: Escalation,
)
    requires
        call_ensures(terminate_one, (port, process, force, cfg), a),
        call_ensures(resume_one, (port, process, force, cfg, signal), b),
    ensures
        a.port == port && a.pid == process.pid && a.force == force && a.cfg == *cfg,
        b.port == port && b.pid == process.pid && b.force == force && b.cfg == *cfg,
        force ==> a@.request() == Some(
            KillRequest::Send { pid: process.pid, signal: Signal::Kill },
        ),
        !force ==> a@.request() == Some(
            KillRequest::Send { pid: process.pid, signal: Signal::Terminate },
        ),
        b@.request() == Some(KillRequest::StartClock),
        b@.delivered() == Some(signal),
{
    assert(a@.port == port && b@.port == port);
}

/// Each of the two signals is sent as itself.
pub proof fn law_signals_are_sent<S: SignalSender + ?Sized>(
    signals: &S,
    pid: u32,
    a: Result<(), AppError>,
    b: Result<(), AppError>,
)
    requires
        call_ensures(send_sigterm::<S>, (signals, pid), a),
        call_ensures(send_sigkill::<S>, (signals, pid), b),
    ensures
        call_ensures(S::send, (signals, pid, Signal::Terminate), a),
        call_ensures(S::send, (signals, pid, Signal::Kill), b),
{
}

/// A signal goes to the number that was asked for, if it stands for one process; for any
/// other it is an error.
pub proof fn law_signal_target(pid: u32, r: Result<i32, AppError>)
    requires
        call_ensures(signal_target, (pid,), r),
    ensures
        1 <= pid < 0x8000_0000 ==> (r matches Ok(target) && target == pid),
        pid == 0 || pid >= 0x8000_0000 ==> r is Err,
{
}

/// On a POSIX system the signal that was asked for goes to the process that was asked for,
/// and what the system answers decides; nothing is asked of it for a number that does not
/// stand for one process.
pub proof fn law_posix_signals<K: PosixKill>(
    signals: &OsSignals<K>,
    pid: u32,
    signal: Signal,
    r: Result<(), AppError>,
)
    requires
        call_ensures(OsSignals::<K>::send, (signals, pid, signal), r),
    ensures
        pid == 0 || pid >= 0x8000_0000 ==> sent_view(r) == Err::<(), AppErrorView>(bad_pid(pid)),
        1 <= pid < 0x8000_0000 ==> exists|reply: PosixReply| #[trigger]
            call_ensures(K::kill, (&signals.system, pid as i32, signal), reply) && sent_view(r)
                == delivery(pid, reply),
{
}

/// On Windows the process that was asked for is ended, whichever signal it was.
pub proof fn law_windows_signals<T: WindowsTerminate>(
    signals: &WindowsSignals<T>,
    pid: u32,
    signal: Signal,
    r: Result<(), AppError>,
)
    requires
        call_ensures(WindowsSignals::<T>::send, (signals, pid, signal), r),
    ensures
        exists|reply: TerminateReply| #[trigger]
            call_ensures(T::terminate, (&signals.system, pid), reply) && sent_view(r)
                == termination(pid, reply),
{
}

// ---------------------------------------------------------------------------
// Names
// ---------------------------------------------------------------------------

/// A process directory is told from other names, and a link to a socket tells its inode.
pub proof fn law_proc_names(
    dir: &str,
    link: &str,
    pid: u32,
    inode: u64,
    a: bool,
    b: Option<u64>,
)
    requires
        dir@ == dec(pid as nat),
        link@ == "socket:["@ + dec(inode as nat) + "]"@,
        call_ensures(is_pid_dir, (dir,), a),
        call_ensures(inode_from_socket_link, (link,), b),
    ensures
        a,
        b == Some(inode),
{
    law_process_directory(pid, Seq::empty());
    law_socket_link(inode, Seq::empty());
}

} // verus!

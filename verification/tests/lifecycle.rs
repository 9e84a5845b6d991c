use std::sync::{Arc, Mutex};

use colored::control::set_override;

use portkill::app::{
    emit, emit_mode, exit, kill_error_text, prompt_confirm, run, Reply, Request, Runner,
};
use portkill::cli::args::Cli;
use portkill::error::AppError;
use portkill::kill::signal::{Signal, SignalSender};
use portkill::kill::{KillConfig, KillReply, KillRequest};
use portkill::platform::PlatformProvider;
use portkill::process::enrich::{ProcessEnricher, ProcessFacts};
use portkill::process::ProcessInfo;
use portkill::render::{PortResult, RunMode};

fn cli(ports: &[&str], kill: bool, force: bool, dry_run: bool) -> Cli {
    Cli {
        ports: ports.iter().map(|s| s.to_string()).collect(),
        kill,
        force,
        dry_run,
        json: false,
    }
}

struct Recorder {
    calls: Arc<Mutex<Vec<(u32, Signal)>>>,
}
impl SignalSender for Recorder {
    fn send(&self, pid: u32, signal: Signal) -> Result<(), AppError> {
        self.calls.lock().unwrap().push((pid, signal));
        Ok(())
    }
}

struct FakeProvider {
    processes: Vec<ProcessInfo>,
}
impl PlatformProvider for FakeProvider {
    fn get_processes_on_port(&self, _port: u16) -> Result<Vec<ProcessInfo>, AppError> {
        Ok(self.processes.clone())
    }
    fn is_port_free(&self, _port: u16) -> Result<bool, AppError> {
        Ok(true)
    }
    fn is_process_gone_from_port(&self, _port: u16, _target_pid: u32) -> Result<bool, AppError> {
        Ok(true)
    }
}

fn runner<'a>(
    provider: &'a dyn PlatformProvider,
    signals: &'a dyn SignalSender,
) -> Runner<'a, dyn PlatformProvider + 'a, dyn SignalSender + 'a> {
    Runner {
        provider,
        signals,
        cfg: KillConfig {
            poll_interval: 1,
            grace_timeout: 5,
            final_verify: 5,
        },
    }
}

/// What a run came to: the exit code, what was written, what was complained of, and
/// how often the user was asked and a snapshot taken.
struct Course {
    code: i32,
    shown: Vec<(RunMode, String)>,
    complaints: Vec<String>,
    asked: u32,
    snapshots: u32,
}

/// Do what the run asks for, with a clock that only waiting moves.
fn course(
    runner: &Runner<dyn PlatformProvider + '_, dyn SignalSender + '_>,
    cli: &Cli,
    mut confirm: impl FnMut() -> bool,
) -> Course {
    let mut session = run(cli, &runner.cfg);
    let mut clock: u64 = 0;
    let mut shown = Vec::new();
    let mut complaints = Vec::new();
    let mut asked = 0;
    let mut snapshots = 0;
    loop {
        let request = session.request();
        let reply = match &request {
            Request::Exit { code } => {
                return Course {
                    code: *code,
                    shown,
                    complaints,
                    asked,
                    snapshots,
                }
            }
            Request::Complain { message } => {
                complaints.push(message.clone());
                Reply::Shown
            }
            Request::Show { mode } => {
                shown.push((*mode, emit_mode(&session.results, session.json, *mode)));
                Reply::Shown
            }
            Request::Confirm => {
                asked += 1;
                Reply::Confirmed(confirm())
            }
            Request::Snapshot => {
                snapshots += 1;
                Reply::Snapshot(ProcessEnricher::new(vec![ProcessFacts {
                    pid: 1234,
                    name: "node".into(),
                    cmd: vec!["node".into(), "server.js".into()],
                    user: Some("alijoder".into()),
                    run_time: 3724,
                }]))
            }
            Request::Kill(KillRequest::StartClock) => {
                clock = 0;
                Reply::Kill(KillReply::ClockStarted)
            }
            Request::Kill(KillRequest::Elapsed) => Reply::Kill(KillReply::Elapsed(clock)),
            Request::Kill(KillRequest::Pause { millis }) => {
                clock += millis;
                Reply::Kill(KillReply::Paused)
            }
            other => {
                let reply = runner.serve(other).unwrap();
                if matches!(reply, Reply::Kill(KillReply::Sent(_))) {
                    clock = 0;
                }
                reply
            }
        };
        session = session.advance(reply);
    }
}

#[test]
fn nothing_found_exits_1() {
    let provider = FakeProvider { processes: vec![] };
    let signals = Recorder {
        calls: Arc::new(Mutex::new(Vec::new())),
    };
    let course = course(
        &runner(&provider, &signals),
        &cli(&["3000"], false, false, false),
        || false,
    );
    assert_eq!(course.code, exit::NOTHING_FOUND);
    assert_eq!(course.snapshots, 0);
}

#[test]
fn dry_run_sends_no_signals_and_exits_0() {
    let provider = FakeProvider {
        processes: vec![ProcessInfo::bare(1234, "node".into())],
    };
    let calls = Arc::new(Mutex::new(Vec::new()));
    let signals = Recorder {
        calls: calls.clone(),
    };
    let course = course(
        &runner(&provider, &signals),
        &cli(&["3000"], true, false, true),
        || true,
    );
    assert_eq!(course.code, exit::OK);
    assert!(
        calls.lock().unwrap().is_empty(),
        "dry-run must not send any signals"
    );
    assert_eq!(course.asked, 0);
    assert_eq!(course.shown.len(), 1);
    assert_eq!(course.shown[0].0, RunMode::DryRun);
    assert!(course.shown[0].1.contains("[Dry Run] Would send SIGTERM"));
}

#[test]
fn graceful_kill_aborted_on_declined_confirmation() {
    let provider = FakeProvider {
        processes: vec![ProcessInfo::bare(1234, "node".into())],
    };
    let calls = Arc::new(Mutex::new(Vec::new()));
    let signals = Recorder {
        calls: calls.clone(),
    };
    let course = course(
        &runner(&provider, &signals),
        &cli(&["3000"], true, false, false),
        || false,
    );
    assert_eq!(course.code, exit::OK);
    assert!(
        calls.lock().unwrap().is_empty(),
        "declined confirmation must not send signals"
    );
    assert_eq!(
        course.shown.iter().map(|s| s.0).collect::<Vec<_>>(),
        vec![RunMode::Confirming, RunMode::Aborted]
    );
}

#[test]
fn json_kill_without_force_exits_with_error() {
    let provider = FakeProvider {
        processes: vec![ProcessInfo::bare(1234, "node".into())],
    };
    let calls = Arc::new(Mutex::new(Vec::new()));
    let signals = Recorder {
        calls: calls.clone(),
    };
    let mut args = cli(&["3000"], true, false, false);
    args.json = true;
    let course = course(&runner(&provider, &signals), &args, || true);
    assert_eq!(course.code, exit::USAGE_OR_INTERNAL);
    assert!(
        calls.lock().unwrap().is_empty(),
        "rejected interactive --json kill must not send any signals"
    );
    assert_eq!(course.asked, 0);
    assert!(course.shown.is_empty());
    assert_eq!(
        course.complaints,
        vec!["error: Cannot use --kill interactively with --json. Use --force to confirm termination."]
    );
}

#[test]
fn force_kill_skips_confirmation_and_sends_sigkill() {
    let provider = FakeProvider {
        processes: vec![ProcessInfo::bare(1234, "node".into())],
    };
    let calls = Arc::new(Mutex::new(Vec::new()));
    let signals = Recorder {
        calls: calls.clone(),
    };
    let course = course(
        &runner(&provider, &signals),
        &cli(&["3000"], false, true, false),
        || false,
    );
    assert_eq!(course.code, exit::OK);
    assert_eq!(*calls.lock().unwrap(), vec![(1234, Signal::Kill)]);
    assert_eq!(course.asked, 0);
}

struct Stubborn {
    processes: Vec<ProcessInfo>,
}
impl PlatformProvider for Stubborn {
    fn get_processes_on_port(&self, _port: u16) -> Result<Vec<ProcessInfo>, AppError> {
        Ok(self.processes.clone())
    }
    fn is_port_free(&self, _port: u16) -> Result<bool, AppError> {
        Ok(false)
    }
}

#[test]
fn kill_failure_maps_to_exit_2() {
    let provider = Stubborn {
        processes: vec![ProcessInfo::bare(1234, "node".into())],
    };
    let calls = Arc::new(Mutex::new(Vec::new()));
    let signals = Recorder {
        calls: calls.clone(),
    };
    let course = course(
        &runner(&provider, &signals),
        &cli(&["3000"], true, false, false),
        || true,
    );
    assert_eq!(course.code, exit::KILL_FAILED);
    assert!(!calls.lock().unwrap().is_empty());
    assert_eq!(
        *calls.lock().unwrap(),
        vec![(1234, Signal::Terminate), (1234, Signal::Kill)]
    );
}

#[test]
fn inspection_shows_and_leaves() {
    set_override(false);
    let provider = FakeProvider {
        processes: vec![ProcessInfo::bare(1234, "node".into())],
    };
    let calls = Arc::new(Mutex::new(Vec::new()));
    let signals = Recorder {
        calls: calls.clone(),
    };
    let course = course(
        &runner(&provider, &signals),
        &cli(&["3000"], false, false, false),
        || true,
    );
    assert_eq!(course.code, exit::OK);
    assert_eq!(course.asked, 0);
    assert_eq!(course.snapshots, 1);
    assert!(calls.lock().unwrap().is_empty());
    assert_eq!(course.shown.len(), 1);
    assert_eq!(course.shown[0].0, RunMode::Inspect);
    // What the snapshot knows is shown.
    assert!(course.shown[0].1.contains("node server.js"));
    assert!(course.shown[0].1.contains("alijoder"));
}

#[test]
fn confirmed_kill_terminates_every_process() {
    let provider = FakeProvider {
        processes: vec![
            ProcessInfo::bare(10, "a".into()),
            ProcessInfo::bare(11, "b".into()),
        ],
    };
    let calls = Arc::new(Mutex::new(Vec::new()));
    let signals = Recorder {
        calls: calls.clone(),
    };
    let course = course(
        &runner(&provider, &signals),
        &cli(&["80-81"], true, false, false),
        || true,
    );
    assert_eq!(course.code, exit::OK);
    assert_eq!(course.asked, 1);
    assert_eq!(
        *calls.lock().unwrap(),
        vec![(10, Signal::Terminate), (11, Signal::Terminate)]
    );
    let last = &course.shown[course.shown.len() - 1];
    assert_eq!(last.0, RunMode::Kill);
    assert_eq!(last.1.matches("Terminated (SIGTERM)").count(), 4);
}

#[test]
fn wrong_ports_are_refused() {
    let provider = FakeProvider { processes: vec![] };
    let signals = Recorder {
        calls: Arc::new(Mutex::new(Vec::new())),
    };
    let course = course(
        &runner(&provider, &signals),
        &cli(&["80", "x"], false, true, false),
        || true,
    );
    assert_eq!(course.code, exit::USAGE_OR_INTERNAL);
    assert_eq!(
        course.complaints,
        vec!["error: invalid port `x`: not a number"]
    );
    assert!(course.shown.is_empty());
}

struct Denied;
impl PlatformProvider for Denied {
    fn get_processes_on_port(&self, port: u16) -> Result<Vec<ProcessInfo>, AppError> {
        Err(AppError::AccessDenied { port })
    }
    fn is_port_free(&self, port: u16) -> Result<bool, AppError> {
        Err(AppError::AccessDenied { port })
    }
}

#[test]
fn all_ports_in_error_exit_3() {
    set_override(false);
    let signals = Recorder {
        calls: Arc::new(Mutex::new(Vec::new())),
    };
    let course = course(
        &runner(&Denied, &signals),
        &cli(&["80"], false, true, false),
        || true,
    );
    assert_eq!(course.code, exit::USAGE_OR_INTERNAL);
    assert_eq!(course.snapshots, 0);
    assert_eq!(
        course.shown[0].1,
        "⚠ could not inspect port 80: port 80 requires elevated privileges to inspect or is \
         protected by the system. Try running `pk` with `sudo` (on macOS/Linux).\n"
    );
}

struct Refuser;
impl SignalSender for Refuser {
    fn send(&self, _pid: u32, _signal: Signal) -> Result<(), AppError> {
        Err(AppError::AccessDenied { port: 0 })
    }
}

#[test]
fn denied_signals_name_port_and_process() {
    let provider = FakeProvider {
        processes: vec![ProcessInfo::bare(1234, "node".into())],
    };
    let mut args = cli(&["3000"], false, true, false);
    args.json = true;
    let course = course(&runner(&provider, &Refuser), &args, || true);
    assert_eq!(course.code, exit::KILL_FAILED);
    assert_eq!(course.shown.len(), 1);
    let doc: serde_json::Value = serde_json::from_str(&course.shown[0].1).unwrap();
    assert_eq!(doc["ports"][0]["processes"][0]["status"], "failed");
    assert_eq!(
        doc["ports"][0]["processes"][0]["error"],
        "permission denied signalling PID 1234 on port 3000; try running `pk` with sudo"
    );
    assert_eq!(
        kill_error_text(&AppError::kill_failed("odd".into()), 1, 2),
        "odd"
    );
}

#[test]
fn answers_to_the_prompt() {
    for yes in ["y", "Y", "yes", " YES \n", "yEs\r\n"] {
        assert!(prompt_confirm(Some(yes)), "{yes:?}");
    }
    for no in ["", "\n", "n", "no", "yess", "y e s", "ja"] {
        assert!(!prompt_confirm(Some(no)), "{no:?}");
    }
    assert!(!prompt_confirm(None));
}

#[test]
fn json_output_ends_with_one_line_feed() {
    let out = emit(&[PortResult::free(1)], true);
    assert!(out.ends_with("}\n"));
    assert_eq!(
        out,
        emit_mode(&[PortResult::free(1)], true, RunMode::Kill)
    );
}

#[test]
fn no_ports_is_nothing_found() {
    let provider = FakeProvider { processes: vec![] };
    let signals = Recorder {
        calls: Arc::new(Mutex::new(Vec::new())),
    };
    let course = course(
        &runner(&provider, &signals),
        &cli(&[], false, false, false),
        || false,
    );
    assert_eq!(course.code, exit::NOTHING_FOUND);
    assert_eq!(course.shown[0].1, "");
}

#[test]
fn json_runs_write_one_document() {
    for (kill, force, dry_run) in [
        (false, false, false),
        (true, true, false),
        (false, false, true),
    ] {
        let provider = FakeProvider {
            processes: vec![ProcessInfo::bare(44122, "node".into())],
        };
        let calls = Arc::new(Mutex::new(Vec::new()));
        let signals = Recorder {
            calls: calls.clone(),
        };
        let mut args = cli(&["3000"], kill, force, dry_run);
        args.json = true;
        let done = course(&runner(&provider, &signals), &args, || true);
        assert_eq!(done.shown.len(), 1);
        assert!(done.shown[0].1.starts_with('{'));
        assert_eq!(done.asked, 0);
    }
}

#[test]
fn a_range_that_meets_one_process_twice_kills_it_once() {
    let provider = FakeProvider {
        processes: vec![ProcessInfo::bare(1234, "node".into())],
    };
    let calls = Arc::new(Mutex::new(Vec::new()));
    let signals = Recorder {
        calls: calls.clone(),
    };
    let done = course(
        &runner(&provider, &signals),
        &cli(&["9000-9001"], false, true, false),
        || true,
    );
    assert_eq!(done.code, exit::OK);
    assert_eq!(*calls.lock().unwrap(), vec![(1234, Signal::Kill)]);
    let last = &done.shown[done.shown.len() - 1];
    assert_eq!(last.1.matches("Killed (SIGKILL)").count(), 2);
}

/// A process that leaves all ports but 9001.
struct Clinging;
impl PlatformProvider for Clinging {
    fn get_processes_on_port(&self, _port: u16) -> Result<Vec<ProcessInfo>, AppError> {
        Ok(vec![ProcessInfo::bare(1234, "node".into())])
    }
    fn is_port_free(&self, port: u16) -> Result<bool, AppError> {
        Ok(port != 9001)
    }
    fn is_process_gone_from_port(&self, port: u16, _target_pid: u32) -> Result<bool, AppError> {
        Ok(port != 9001)
    }
}

#[test]
fn a_second_port_gets_no_second_sigkill() {
    let calls = Arc::new(Mutex::new(Vec::new()));
    let signals = Recorder {
        calls: calls.clone(),
    };
    let mut args = cli(&["9000-9002"], false, true, false);
    args.json = true;
    let done = course(&runner(&Clinging, &signals), &args, || true);
    assert_eq!(done.code, exit::KILL_FAILED);
    assert_eq!(*calls.lock().unwrap(), vec![(1234, Signal::Kill)]);
    let doc: serde_json::Value = serde_json::from_str(&done.shown[0].1).unwrap();
    let row = |i: usize| &doc["ports"][i]["processes"][0];
    assert_eq!(row(0)["status"], "killed");
    assert_eq!(row(1)["status"], "failed");
    assert_eq!(
        row(1)["error"],
        "PID 1234 still bound to port 9001 after SIGKILL (zombie/stuck or restarted)"
    );
    assert_eq!(row(2)["status"], "killed");
}

/// Refuses every signal, and keeps count.
struct CountingRefuser {
    calls: Arc<Mutex<Vec<(u32, Signal)>>>,
}
impl SignalSender for CountingRefuser {
    fn send(&self, pid: u32, signal: Signal) -> Result<(), AppError> {
        self.calls.lock().unwrap().push((pid, signal));
        Err(AppError::AccessDenied { port: 0 })
    }
}

#[test]
fn a_refused_signal_is_tried_again_at_the_next_port() {
    let provider = FakeProvider {
        processes: vec![
            ProcessInfo::bare(1234, "node".into()),
            ProcessInfo::bare(77, "vite".into()),
        ],
    };
    let calls = Arc::new(Mutex::new(Vec::new()));
    let signals = CountingRefuser {
        calls: calls.clone(),
    };
    let mut args = cli(&["9000-9001"], false, true, false);
    args.json = true;
    let done = course(&runner(&provider, &signals), &args, || true);
    assert_eq!(done.code, exit::KILL_FAILED);
    assert_eq!(
        *calls.lock().unwrap(),
        vec![
            (1234, Signal::Kill),
            (77, Signal::Kill),
            (1234, Signal::Kill),
            (77, Signal::Kill)
        ]
    );
    let doc: serde_json::Value = serde_json::from_str(&done.shown[0].1).unwrap();
    for (i, port) in [9000, 9001].into_iter().enumerate() {
        for (j, pid) in [1234, 77].into_iter().enumerate() {
            let row = &doc["ports"][i]["processes"][j];
            assert_eq!(row["status"], "failed");
            assert_eq!(
                row["error"],
                format!(
                    "permission denied signalling PID {pid} on port {port}; \
                     try running `pk` with sudo"
                )
            );
        }
    }
}

/// A process that leaves port 9000 after `looks` looks, and port 9001 after `looks` looks
/// if `obeys`, else only after `SIGKILL`.
struct Leaving {
    looks: u32,
    obeys: bool,
    calls: Arc<Mutex<Vec<(u32, Signal)>>>,
    seen: Mutex<[u32; 2]>,
}
impl PlatformProvider for Leaving {
    fn get_processes_on_port(&self, _port: u16) -> Result<Vec<ProcessInfo>, AppError> {
        Ok(vec![ProcessInfo::bare(1234, "node".into())])
    }
    fn is_port_free(&self, _port: u16) -> Result<bool, AppError> {
        Ok(false)
    }
    fn is_process_gone_from_port(&self, port: u16, _target_pid: u32) -> Result<bool, AppError> {
        let mut seen = self.seen.lock().unwrap();
        let at = (port - 9000) as usize;
        seen[at] += 1;
        let killed = self
            .calls
            .lock()
            .unwrap()
            .iter()
            .any(|&(_, signal)| signal == Signal::Kill);
        Ok(killed || (seen[at] > self.looks && (at == 0 || self.obeys)))
    }
}

#[test]
fn a_second_port_that_stays_bound_brings_sigkill() {
    let calls = Arc::new(Mutex::new(Vec::new()));
    let provider = Leaving {
        looks: 0,
        obeys: false,
        calls: calls.clone(),
        seen: Mutex::new([0, 0]),
    };
    let signals = Recorder {
        calls: calls.clone(),
    };
    let done = course(
        &runner(&provider, &signals),
        &cli(&["9000-9001"], true, false, false),
        || true,
    );
    assert_eq!(done.code, exit::OK);
    assert_eq!(
        *calls.lock().unwrap(),
        vec![(1234, Signal::Terminate), (1234, Signal::Kill)]
    );
    let last = &done.shown[done.shown.len() - 1];
    assert_eq!(last.1.matches("Terminated (SIGTERM)").count(), 1);
    assert_eq!(last.1.matches("Killed (SIGKILL)").count(), 1);
}

#[test]
fn a_second_port_has_time_of_its_own() {
    // Both ports are left in the last moment of the grace time.
    let calls = Arc::new(Mutex::new(Vec::new()));
    let provider = Leaving {
        looks: 5,
        obeys: true,
        calls: calls.clone(),
        seen: Mutex::new([0, 0]),
    };
    let signals = Recorder {
        calls: calls.clone(),
    };
    let done = course(
        &runner(&provider, &signals),
        &cli(&["9000-9001"], true, false, false),
        || true,
    );
    assert_eq!(done.code, exit::OK);
    assert_eq!(*calls.lock().unwrap(), vec![(1234, Signal::Terminate)]);
}

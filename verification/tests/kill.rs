use std::sync::{Arc, Mutex};

use portkill::app::{Reply, Request, Runner};
use portkill::error::AppError;
use portkill::kill::signal::{
    interpret_reply, interpret_termination, send_sigkill, send_sigterm, signal_target, OsSignals,
    PosixKill, PosixReply, Signal, SignalSender, TerminateReply, WindowsSignals, WindowsTerminate,
};
use portkill::kill::{
    resume_one, terminate_one, Escalation, KillConfig, KillOutcome, KillReply, KillRequest, Stage,
};
use portkill::platform::PlatformProvider;
use portkill::process::ProcessInfo;

struct MockSignals {
    calls: Arc<Mutex<Vec<(u32, Signal)>>>,
    fail: bool,
}

impl MockSignals {
    fn new(calls: Arc<Mutex<Vec<(u32, Signal)>>>) -> Self {
        Self { calls, fail: false }
    }
    fn failing(calls: Arc<Mutex<Vec<(u32, Signal)>>>) -> Self {
        Self { calls, fail: true }
    }
}

impl SignalSender for MockSignals {
    fn send(&self, pid: u32, signal: Signal) -> Result<(), AppError> {
        self.calls.lock().unwrap().push((pid, signal));
        if self.fail {
            Err(AppError::kill_failed(format!(
                "mock refusal to signal PID {pid}"
            )))
        } else {
            Ok(())
        }
    }
}

#[derive(Clone, Copy, PartialEq, Eq)]
enum FreeWhen {
    Sigterm,
    Sigkill,
    Never,
}

struct MockProvider {
    free_when: FreeWhen,
    signals: Arc<Mutex<Vec<(u32, Signal)>>>,
}

impl PlatformProvider for MockProvider {
    fn get_processes_on_port(&self, _port: u16) -> Result<Vec<ProcessInfo>, AppError> {
        unreachable!("tests drive termination directly")
    }
    fn is_port_free(&self, _port: u16) -> Result<bool, AppError> {
        self.target_gone()
    }
    fn is_process_gone_from_port(&self, _port: u16, _target_pid: u32) -> Result<bool, AppError> {
        self.target_gone()
    }
}

impl MockProvider {
    fn target_gone(&self) -> Result<bool, AppError> {
        let sent = self.signals.lock().unwrap();
        Ok(match self.free_when {
            FreeWhen::Sigterm => sent.iter().any(|&(_, s)| s == Signal::Terminate),
            FreeWhen::Sigkill => sent.iter().any(|&(_, s)| s == Signal::Kill),
            FreeWhen::Never => false,
        })
    }
}

fn proc(pid: u32) -> ProcessInfo {
    ProcessInfo::bare(pid, "test".into())
}

fn quick() -> KillConfig {
    KillConfig {
        poll_interval: 1,
        grace_timeout: 5,
        final_verify: 5,
    }
}

/// Do what the attempt asks for, with a clock that only waiting moves.
fn finish(
    mut attempt: Escalation,
    signals: &dyn SignalSender,
    provider: &dyn PlatformProvider,
) -> Result<KillOutcome, AppError> {
    let runner = Runner {
        provider,
        signals,
        cfg: attempt.cfg,
    };
    let mut clock: u64 = 0;
    while let Some(request) = attempt.request() {
        let reply = match request {
            KillRequest::Elapsed => KillReply::Elapsed(clock),
            KillRequest::Pause { millis } => {
                clock += millis;
                KillReply::Paused
            }
            other => match runner.serve(&Request::Kill(other)) {
                Some(Reply::Kill(reply)) => {
                    if matches!(reply, KillReply::Sent(_)) {
                        clock = 0;
                    }
                    reply
                }
                _ => unreachable!(),
            },
        };
        attempt = attempt.advance(reply);
    }
    match attempt.stage {
        Stage::Finished(result) => result,
        _ => unreachable!(),
    }
}

fn recording(port: u16, force: bool, free_when: FreeWhen) -> (KillOutcome, Vec<(u32, Signal)>) {
    let calls = Arc::new(Mutex::new(Vec::new()));
    let outcome = finish(
        terminate_one(port, &proc(1234), force, &quick()),
        &MockSignals::new(calls.clone()),
        &MockProvider {
            free_when,
            signals: calls.clone(),
        },
    )
    .unwrap();
    let calls = calls.lock().unwrap().clone();
    (outcome, calls)
}

fn signal_sequence(calls: &[(u32, Signal)]) -> Vec<Signal> {
    calls.iter().map(|&(_, s)| s).collect()
}

#[test]
fn force_jumps_straight_to_sigkill() {
    let (outcome, calls) = recording(3000, true, FreeWhen::Sigkill);
    assert_eq!(signal_sequence(&calls), vec![Signal::Kill]);
    assert_eq!(
        outcome,
        KillOutcome::ForcefulSuccess {
            port: 3000,
            pid: 1234
        }
    );
}

#[test]
fn successful_sigterm_prevents_sigkill() {
    let (outcome, calls) = recording(3000, false, FreeWhen::Sigterm);
    assert_eq!(signal_sequence(&calls), vec![Signal::Terminate]);
    assert_eq!(
        outcome,
        KillOutcome::GracefulSuccess {
            port: 3000,
            pid: 1234
        }
    );
}

#[test]
fn failed_sigterm_escalates_to_sigkill() {
    let (outcome, calls) = recording(3000, false, FreeWhen::Sigkill);
    assert_eq!(
        signal_sequence(&calls),
        vec![Signal::Terminate, Signal::Kill]
    );
    assert_eq!(
        outcome,
        KillOutcome::ForcefulSuccess {
            port: 3000,
            pid: 1234
        }
    );
}

#[test]
fn failed_sigkill_returns_error_outcome() {
    let (outcome, calls) = recording(3000, true, FreeWhen::Never);
    assert_eq!(signal_sequence(&calls), vec![Signal::Kill]);
    match outcome {
        KillOutcome::Failed { port, pid, reason } => {
            assert_eq!(port, 3000);
            assert_eq!(pid, 1234);
            assert_eq!(
                reason,
                "PID 1234 still bound to port 3000 after SIGKILL (zombie/stuck or restarted)"
            );
        }
        other => panic!("expected Failed, got {other:?}"),
    }
}

#[test]
fn failed_sigterm_then_failed_sigkill_is_failed_with_both_signals() {
    let (outcome, calls) = recording(3000, false, FreeWhen::Never);
    assert_eq!(
        signal_sequence(&calls),
        vec![Signal::Terminate, Signal::Kill]
    );
    assert!(matches!(outcome, KillOutcome::Failed { .. }));
    assert_eq!(
        outcome,
        KillOutcome::Failed {
            port: 3000,
            pid: 1234,
            reason: "PID 1234 still bound to port 3000 after SIGTERM→SIGKILL (zombie/stuck or restarted)"
                .into(),
        }
    );
}

#[test]
fn signal_delivery_error_propagates() {
    let calls = Arc::new(Mutex::new(Vec::new()));
    let res = finish(
        terminate_one(3000, &proc(1234), true, &KillConfig::default()),
        &MockSignals::failing(calls.clone()),
        &MockProvider {
            free_when: FreeWhen::Never,
            signals: calls.clone(),
        },
    );
    assert!(res.is_err());
    assert!(res.unwrap_err().to_string().contains("mock refusal"));
}

#[test]
fn outcomes_classify_success_properly() {
    assert!(KillOutcome::GracefulSuccess { port: 1, pid: 1 }.is_success());
    assert!(KillOutcome::ForcefulSuccess { port: 1, pid: 1 }.is_success());
    assert!(!KillOutcome::Failed {
        port: 1,
        pid: 1,
        reason: String::new()
    }
    .is_success());
}

struct KillOnSignal {
    occupants: Arc<Mutex<Vec<u32>>>,
}
impl SignalSender for KillOnSignal {
    fn send(&self, pid: u32, _signal: Signal) -> Result<(), AppError> {
        self.occupants.lock().unwrap().retain(|&p| p != pid);
        Ok(())
    }
}

struct SharedPortProvider {
    occupants: Arc<Mutex<Vec<u32>>>,
}
impl PlatformProvider for SharedPortProvider {
    fn get_processes_on_port(&self, _port: u16) -> Result<Vec<ProcessInfo>, AppError> {
        Ok(self
            .occupants
            .lock()
            .unwrap()
            .iter()
            .map(|&p| ProcessInfo::bare(p, "worker".into()))
            .collect())
    }
    fn is_port_free(&self, _port: u16) -> Result<bool, AppError> {
        Ok(self.occupants.lock().unwrap().is_empty())
    }
    fn is_process_gone_from_port(&self, _port: u16, target_pid: u32) -> Result<bool, AppError> {
        Ok(!self.occupants.lock().unwrap().contains(&target_pid))
    }
}

#[test]
fn killing_one_worker_on_shared_port_succeeds() {
    let occupants = Arc::new(Mutex::new(vec![1234u32, 1235u32]));
    let outcome = finish(
        terminate_one(3000, &proc(1234), true, &quick()),
        &KillOnSignal {
            occupants: occupants.clone(),
        },
        &SharedPortProvider {
            occupants: occupants.clone(),
        },
    )
    .unwrap();

    assert_eq!(
        outcome,
        KillOutcome::ForcefulSuccess {
            port: 3000,
            pid: 1234
        },
        "killing one SO_REUSEPORT worker must succeed even though the port \
         is still held by a sibling"
    );

    assert_eq!(*occupants.lock().unwrap(), vec![1235u32]);
    let provider = SharedPortProvider {
        occupants: occupants.clone(),
    };
    assert!(!provider.is_port_free(3000).unwrap());
    assert!(outcome.is_success());
}

struct NeverCalled;
impl PosixKill for NeverCalled {
    fn kill(&self, _pid: i32, _signal: Signal) -> PosixReply {
        panic!("the system must not be asked")
    }
}

#[test]
fn invalid_pids_are_rejected_before_kill() {
    let subject = OsSignals {
        system: NeverCalled,
    };
    for bad_pid in [0u32, u32::MAX] {
        let result = subject.send(bad_pid, Signal::Terminate);
        let err = match result {
            Ok(()) => panic!("expected PID {bad_pid} to be rejected"),
            Err(e) => e,
        };
        assert!(
            matches!(err, AppError::Internal { .. }),
            "PID {bad_pid} should produce AppError::Internal, got: {err:?}"
        );
        assert!(
            err.to_string().contains("invalid PID"),
            "message should explain the guard: {}",
            err.to_string()
        );
    }
}

#[test]
fn bounds_of_signal_targets() {
    assert_eq!(signal_target(1).unwrap(), 1);
    assert_eq!(signal_target(0x7fff_ffff).unwrap(), i32::MAX);
    assert_eq!(
        signal_target(0x8000_0000).unwrap_err(),
        AppError::internal(
            "refusing to signal PID 2147483648: invalid PID (would target a process group or every process)"
                .into()
        )
    );
}

struct Answering {
    asked: Arc<Mutex<Vec<(i32, Signal)>>>,
}
impl PosixKill for Answering {
    fn kill(&self, pid: i32, signal: Signal) -> PosixReply {
        self.asked.lock().unwrap().push((pid, signal));
        PosixReply::NoSuchProcess
    }
}

#[test]
fn posix_signals_go_to_the_process() {
    let asked = Arc::new(Mutex::new(Vec::new()));
    let subject = OsSignals {
        system: Answering {
            asked: asked.clone(),
        },
    };
    assert!(send_sigterm(&subject, 77).is_ok());
    assert!(send_sigkill(&subject, 78).is_ok());
    assert_eq!(
        *asked.lock().unwrap(),
        vec![(77, Signal::Terminate), (78, Signal::Kill)]
    );
}

#[test]
fn posix_replies_are_interpreted() {
    assert!(interpret_reply(9, PosixReply::Delivered).is_ok());
    assert!(interpret_reply(9, PosixReply::NoSuchProcess).is_ok());
    assert_eq!(
        interpret_reply(9, PosixReply::NotPermitted).unwrap_err(),
        AppError::AccessDenied { port: 0 }
    );
    assert_eq!(
        interpret_reply(
            9,
            PosixReply::Other {
                detail: "odd".into()
            }
        )
        .unwrap_err()
        .to_string(),
        "could not signal PID 9: odd"
    );
}

struct Refusing;
impl WindowsTerminate for Refusing {
    fn terminate(&self, _pid: u32) -> TerminateReply {
        TerminateReply::NotOpened
    }
}

#[test]
fn windows_replies_are_interpreted() {
    assert!(interpret_termination(9, TerminateReply::Terminated).is_ok());
    // A process that has gone is no failure: there is nothing left to end.
    assert!(interpret_termination(9, TerminateReply::NoSuchProcess).is_ok());
    assert_eq!(
        interpret_termination(
            9,
            TerminateReply::Refused {
                detail: "denied".into()
            }
        )
        .unwrap_err()
        .to_string(),
        "could not terminate PID 9: denied"
    );
    let subject = WindowsSignals { system: Refusing };
    for signal in [Signal::Terminate, Signal::Kill] {
        assert_eq!(
            subject.send(5, signal).unwrap_err().to_string(),
            "could not open PID 5 for termination (is it running / do you have permission?)"
        );
    }
}

#[test]
fn default_times() {
    assert_eq!(
        KillConfig::default(),
        KillConfig {
            poll_interval: 100,
            grace_timeout: 2000,
            final_verify: 1000
        }
    );
}

#[test]
fn escalation_step_by_step() {
    let cfg = KillConfig {
        poll_interval: 10,
        grace_timeout: 25,
        final_verify: 0,
    };
    let e = terminate_one(80, &proc(7), false, &cfg);
    assert_eq!(
        e.request(),
        Some(KillRequest::Send {
            pid: 7,
            signal: Signal::Terminate
        })
    );
    // A reply to something else changes nothing.
    let e = e.advance(KillReply::Paused);
    assert_eq!(e.stage, Stage::Signalling(Signal::Terminate));
    let e = e.advance(KillReply::Sent(Ok(())));
    assert_eq!(e.request(), Some(KillRequest::Probe { port: 80, pid: 7 }));
    // A look that fails counts as "still there".
    let e = e.advance(KillReply::Probed(Err(AppError::AccessDenied { port: 80 })));
    assert_eq!(e.request(), Some(KillRequest::Elapsed));
    let e = e.advance(KillReply::Elapsed(24));
    assert_eq!(e.request(), Some(KillRequest::Pause { millis: 10 }));
    let e = e.advance(KillReply::Paused);
    let e = e.advance(KillReply::Probed(Ok(false)));
    let e = e.advance(KillReply::Elapsed(25));
    assert_eq!(
        e.request(),
        Some(KillRequest::Send {
            pid: 7,
            signal: Signal::Kill
        })
    );
    let e = e.advance(KillReply::Sent(Ok(())));
    let e = e.advance(KillReply::Probed(Ok(true)));
    assert_eq!(e.request(), None);
    assert_eq!(
        e.stage,
        Stage::Finished(Ok(KillOutcome::ForcefulSuccess { port: 80, pid: 7 }))
    );
    let e = e.advance(KillReply::Probed(Ok(false)));
    assert!(matches!(e.stage, Stage::Finished(Ok(_))));
}

#[test]
fn an_attempt_at_one_more_port_goes_on_where_it_stood() {
    let process = proc(1234);
    // After SIGTERM, the time for this port begins, and SIGKILL is next.
    let e = resume_one(3001, &process, false, &quick(), Signal::Terminate);
    assert_eq!(e.request(), Some(KillRequest::StartClock));
    let e = e.advance(KillReply::ClockStarted);
    assert_eq!(
        e.request(),
        Some(KillRequest::Probe {
            port: 3001,
            pid: 1234
        })
    );
    let e = e.advance(KillReply::Probed(Ok(false)));
    assert_eq!(e.request(), Some(KillRequest::Elapsed));
    let e = e.advance(KillReply::Elapsed(u64::MAX));
    assert_eq!(
        e.request(),
        Some(KillRequest::Send {
            pid: 1234,
            signal: Signal::Kill
        })
    );
    let e = e.advance(KillReply::Sent(Ok(())));
    let e = e.advance(KillReply::Probed(Ok(true)));
    assert_eq!(
        e.stage,
        Stage::Finished(Ok(KillOutcome::ForcefulSuccess {
            port: 3001,
            pid: 1234
        }))
    );
    // After SIGKILL, nothing is left to send.
    let e = resume_one(3001, &process, false, &quick(), Signal::Kill)
        .advance(KillReply::ClockStarted)
        .advance(KillReply::Probed(Ok(false)))
        .advance(KillReply::Elapsed(u64::MAX));
    assert_eq!(
        e.stage,
        Stage::Finished(Ok(KillOutcome::Failed {
            port: 3001,
            pid: 1234,
            reason: "PID 1234 still bound to port 3001 after SIGTERM→SIGKILL \
                     (zombie/stuck or restarted)"
                .into()
        }))
    );
}

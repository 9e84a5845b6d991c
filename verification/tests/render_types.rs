use portkill::process::{ProcessInfo, Protocol};
use portkill::render::{
    PortResult, ProcessResult, ProcessStatus, RunMode, SignalKind, TableOptions,
};

#[test]
fn process_result_mirrors_process_info() {
    let info = ProcessInfo {
        pid: 44122,
        name: "node".into(),
        command: Some("node server.js".into()),
        user: Some("alijoder".into()),
        uptime_secs: Some(3724),
        cwd: Some("/tmp".into()),
    };
    let row = ProcessResult::from(&info);
    assert_eq!(row.pid, info.pid);
    assert_eq!(row.name, info.name);
    assert_eq!(row.command, info.command);
    assert_eq!(row.user, info.user);
    assert_eq!(row.uptime_secs, info.uptime_secs);
    assert_eq!(row.cwd, info.cwd);
    assert_eq!(row.status, ProcessStatus::Info);
    assert_eq!(row.to_process_info(), info);
}

#[test]
fn signal_kind_names_and_display() {
    assert_eq!(SignalKind::Sigterm.name(), "SIGTERM");
    assert_eq!(SignalKind::Sigkill.name(), "SIGKILL");
    assert_eq!(SignalKind::Sigterm.to_string(), "SIGTERM");
    assert_eq!(SignalKind::from_force(true), SignalKind::Sigkill);
    assert_eq!(SignalKind::from_force(false), SignalKind::Sigterm);
}

#[test]
fn port_result_states() {
    assert!(PortResult::free(3000).is_free());
    let occ = PortResult::occupied(3000, vec![ProcessInfo::bare(12, "x".into())]);
    assert!(occ.is_occupied() && !occ.is_free());
    let err = PortResult::inspection_error(80, Protocol::Tcp, "denied");
    assert!(err.is_error() && !err.is_free() && !err.is_occupied());
}

#[test]
fn status_serializes_snake_case_and_signals_uppercase() {
    assert_eq!(
        serde_json::to_string(ProcessStatus::DryRun.name()).unwrap(),
        r#""dry_run""#
    );
    assert_eq!(
        serde_json::to_string(SignalKind::Sigterm.name()).unwrap(),
        r#""SIGTERM""#
    );
}

#[test]
fn show_status_only_after_action_or_dry_run() {
    assert!(!TableOptions::default().show_status());
    assert!(TableOptions::new(RunMode::DryRun).show_status());
    assert!(TableOptions::new(RunMode::Kill).show_status());
    assert!(!TableOptions::new(RunMode::Aborted).show_status());
}

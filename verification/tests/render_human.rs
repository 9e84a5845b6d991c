use colored::control::set_override;

use portkill::process::{ProcessInfo, Protocol};
use portkill::render::{
    render_table, PortResult, ProcessStatus, RunMode, SignalKind, TableOptions,
};

fn no_color() {
    // Keep assertions byte-exact regardless of the environment.
    set_override(false);
}

fn bare(pid: u32, name: &str) -> ProcessInfo {
    ProcessInfo::bare(pid, name.into())
}

fn rich(pid: u32, name: &str, command: &str) -> ProcessInfo {
    let mut p = bare(pid, name);
    p.command = Some(command.into());
    p.user = Some("alijoder".into());
    p.uptime_secs = Some(3724);
    p.cwd = Some("/workspace/portKiller".into());
    p
}

fn occupied(port: u16, procs: Vec<ProcessInfo>) -> PortResult {
    PortResult::occupied(port, procs)
}

#[test]
fn free_port_prints_friendly_message_not_a_table() {
    no_color();
    let out = render_table(&[PortResult::free(3000)], &TableOptions::default());
    assert_eq!(out, "✨ Port 3000 is free.\n");
}

#[test]
fn inspect_mode_table_has_no_status_column() {
    no_color();
    let out = render_table(
        &[occupied(3000, vec![rich(44122, "node", "node server.js")])],
        &TableOptions::default(),
    );
    for header in ["PORT", "PID", "PROCESS", "USER", "DETAILS"] {
        assert!(out.contains(header), "missing header {header}:\n{out}");
    }
    assert!(
        !out.contains("STATUS"),
        "inspect mode must hide STATUS:\n{out}"
    );
    assert!(out.contains("44122"));
    assert!(out.contains("node server.js"));
    assert!(out.contains("alijoder"));
    assert!(out.contains("Port 3000 — in use"));
    assert!(
        out.contains("pk --kill 3000"),
        "should suggest the kill command:\n{out}"
    );
}

#[test]
fn dry_run_stamps_a_would_send_status() {
    no_color();
    let mut result = occupied(3000, vec![bare(44122, "node")]);
    result.processes[0].status = ProcessStatus::DryRun;
    result.processes[0].signal = Some(SignalKind::Sigterm);
    let out = render_table(&[result], &TableOptions::new(RunMode::DryRun));
    assert!(out.contains("STATUS"), "dry run must show STATUS column");
    assert!(
        out.contains("[Dry Run] Would send SIGTERM"),
        "missing badge:\n{out}"
    );
    assert!(out.contains("Dry run — no signals were sent."));
    assert!(!out.contains("was sent SIGTERM"));
}

#[test]
fn kill_mode_verdict_confirmations() {
    no_color();
    let mut ok = occupied(3000, vec![bare(44122, "node")]);
    ok.processes[0].status = ProcessStatus::Terminated;
    ok.processes[0].signal = Some(SignalKind::Sigterm);
    let out = render_table(&[ok], &TableOptions::new(RunMode::Kill));
    assert!(out.contains("Terminated (SIGTERM)"));
    assert!(out.contains("✓ Port 3000 is now free."));

    let mut killed = occupied(5432, vec![bare(99, "postgres")]);
    killed.processes[0].status = ProcessStatus::Killed;
    killed.processes[0].signal = Some(SignalKind::Sigkill);
    let out = render_table(&[killed], &TableOptions::new(RunMode::Kill));
    assert!(out.contains("Killed (SIGKILL)"));
}

#[test]
fn failed_kill_is_flagged_below_the_table() {
    no_color();
    let mut result = occupied(3000, vec![bare(44122, "node")]);
    result.processes[0].status = ProcessStatus::Failed;
    result.processes[0].error = Some("permission denied".into());
    let out = render_table(&[result], &TableOptions::new(RunMode::Kill));
    assert!(out.contains("Failed"));
    assert!(!out.contains("now free"));
    assert!(out.contains("✗ Failed to free port 3000 (PID 44122): permission denied"));
}

#[test]
fn multiple_processes_share_one_port_grouping() {
    no_color();
    let out = render_table(
        &[occupied(
            8080,
            vec![bare(1001, "worker-a"), bare(1002, "worker-b")],
        )],
        &TableOptions::default(),
    );
    assert!(out.contains("1001"));
    assert!(out.contains("1002"));
    assert!(out.contains("worker-a"));
    assert!(out.contains("worker-b"));
    // The port header appears exactly once — grouping, not repetition.
    assert_eq!(out.matches("Port 8080 — in use").count(), 1);
}

#[test]
fn long_command_lines_are_truncated_with_ellipsis() {
    no_color();
    let long = "vite --host 0.0.0.0 --port 3000 --strictPort --config ./vite.config.ts --mode development";
    let out = render_table(
        &[occupied(3000, vec![rich(5, "vite", long)])],
        &TableOptions::default(),
    );
    assert!(!out.contains(long), "long command must be elided");
    assert!(out.contains('…'), "ellipsis expected");
}

#[test]
fn missing_command_falls_back_to_uptime_then_cwd() {
    no_color();
    let out = render_table(
        &[occupied(3000, vec![bare(5, "node")])],
        &TableOptions::default(),
    );
    assert!(out.contains("—"), "no details should render a placeholder");

    let mut with_uptime = occupied(3000, vec![bare(5, "node")]);
    with_uptime.processes[0].uptime_secs = Some(3724);
    let out = render_table(&[with_uptime], &TableOptions::default());
    assert!(out.contains("up 1h 2m 4s"), "uptime fallback:\n{out}");
}

#[test]
fn inspection_errors_render_as_warnings() {
    no_color();
    let err = PortResult::inspection_error(
        80,
        Protocol::Tcp,
        "requires elevated privileges",
    );
    let out = render_table(&[err], &TableOptions::default());
    assert!(out.contains("⚠"));
    assert!(out.contains("could not inspect port 80"));
    assert!(out.contains("requires elevated privileges"));
}

#[test]
fn abort_footer_only_after_an_aborted_confirmation() {
    no_color();
    let result = occupied(3000, vec![bare(5, "node")]);
    let out = render_table(&[result], &TableOptions::new(RunMode::Aborted));
    assert!(out.contains("Aborted — no processes were terminated."));
    assert!(!out.contains("STATUS"));
}

#[test]
fn confirming_mode_shows_table_but_omits_inspect_footer() {
    no_color();
    let result = occupied(3000, vec![rich(44122, "node", "node server.js")]);
    let out = render_table(&[result], &TableOptions::new(RunMode::Confirming));
    assert!(out.contains("Port 3000 — in use"));
    assert!(out.contains("44122"));
    assert!(out.contains("node server.js"));
    assert!(
        !out.contains("inspect only"),
        "must not show the inspect-only verdict during confirmation:\n{out}"
    );
    assert!(
        !out.contains("pk --kill 3000"),
        "must not suggest the kill command during confirmation:\n{out}"
    );
    assert!(!out.contains("STATUS"));
}

#[test]
fn every_inspection_error_can_be_read() {
    no_color();
    let out = render_table(
        &[
            PortResult::free(3000),
            PortResult::inspection_error(80, Protocol::Tcp, "requires elevated privileges"),
            PortResult::inspection_error(443, Protocol::Tcp, "command `lsof` failed"),
        ],
        &TableOptions::default(),
    );
    assert!(out.contains("could not inspect port 80: requires elevated privileges"));
    assert!(out.contains("could not inspect port 443: command `lsof` failed"));
}

#[test]
fn views_of_two_lists_join() {
    no_color();
    let a = [
        PortResult::free(1),
        occupied(3000, vec![bare(10, "node"), bare(11, "vite")]),
    ];
    let b = [
        occupied(3001, vec![rich(12, "vite", "vite --port 3001")]),
        PortResult::inspection_error(80, Protocol::Tcp, "denied"),
    ];
    let both: Vec<PortResult> = a.iter().chain(b.iter()).cloned().collect();
    for mode in [RunMode::Inspect, RunMode::Kill, RunMode::Confirming] {
        let opts = TableOptions::new(mode);
        assert_eq!(
            render_table(&both, &opts),
            render_table(&a, &opts) + &render_table(&b, &opts)
        );
        assert_eq!(render_table(&[], &opts), "");
    }
    for (mode, footer) in [
        (RunMode::DryRun, "Dry run — no signals were sent.\n"),
        (RunMode::Aborted, "Aborted — no processes were terminated.\n"),
    ] {
        let opts = TableOptions::new(mode);
        let first = render_table(&a, &opts);
        assert_eq!(
            render_table(&both, &opts),
            first.strip_suffix(footer).unwrap().to_string() + &render_table(&b, &opts)
        );
        assert_eq!(render_table(&a[..1], &opts), "✨ Port 1 is free.\n");
    }
}

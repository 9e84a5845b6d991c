use colored::control::set_override;

use portkill::process::{ProcessInfo, Protocol};
use portkill::render::json::{kill_signal, was_killed};
use portkill::render::table::{
    details_text, human_duration, sanitize, status_text, truncate, user_text,
};
use portkill::render::{
    render_json, render_table, PortResult, ProcessResult, ProcessStatus, RunMode, SignalKind,
    TableOptions,
};

fn node() -> ProcessInfo {
    let mut p = ProcessInfo::bare(44122, "node".into());
    p.command = Some("node server.js".into());
    p.user = Some("alijoder".into());
    p
}

#[test]
fn a_table_in_full() {
    set_override(false);
    let out = render_table(
        &[PortResult::occupied(3000, vec![node()])],
        &TableOptions::default(),
    );
    assert_eq!(
        out,
        "Port 3000 — in use\n \
         PORT    PID  PROCESS  USER      DETAILS\n \
         3000  44122  node     alijoder  node server.js\n\
         1 process(es) on port 3000; inspect only — run `pk --kill 3000` to free them.\n\n"
    );
}

#[test]
fn a_kill_in_full() {
    set_override(false);
    let mut port = PortResult::occupied(80, vec![node(), node()]);
    port.processes[0].status = ProcessStatus::Killed;
    port.processes[0].signal = Some(SignalKind::Sigkill);
    port.processes[1].status = ProcessStatus::Failed;
    let out = render_table(
        &[PortResult::free(79), port],
        &TableOptions::new(RunMode::Kill),
    );
    assert_eq!(
        out,
        "✨ Port 79 is free.\n\
         Port 80 — in use\n \
         PORT    PID  PROCESS  USER      DETAILS         STATUS\n   \
         80  44122  node     alijoder  node server.js  Killed (SIGKILL)\n   \
         80  44122  node     alijoder  node server.js  Failed\n\
         ✗ Failed to free port 80 (PID 44122): the signal was delivered but the port stayed bound\n\n"
    );
}

#[test]
fn a_dry_run_in_full() {
    set_override(false);
    let mut port = PortResult::occupied(80, vec![node()]);
    port.processes[0].status = ProcessStatus::DryRun;
    port.processes[0].signal = Some(SignalKind::Sigkill);
    let out = render_table(&[port], &TableOptions::new(RunMode::DryRun));
    assert!(out.contains("[Dry Run] Would send SIGKILL\n"));
    assert!(out.ends_with(
        "Dry run: would terminate 1 process(es) on port 80.\n\nDry run — no signals were sent.\n"
    ));
}

#[test]
fn footers_need_a_table() {
    set_override(false);
    for mode in [RunMode::DryRun, RunMode::Aborted] {
        assert_eq!(
            render_table(&[PortResult::free(1)], &TableOptions::new(mode)),
            "✨ Port 1 is free.\n"
        );
    }
}

#[test]
fn colours_when_they_are_on() {
    set_override(true);
    assert_eq!(
        render_table(&[PortResult::free(3000)], &TableOptions::default()),
        "✨ \x1b[1;32mPort 3000 is free.\x1b[0m\n"
    );
    let err = PortResult::inspection_error(80, Protocol::Tcp, "a\x1b[0mb");
    assert_eq!(
        render_table(&[err], &TableOptions::default()),
        "⚠ \x1b[33mcould not inspect port 80: a\x1b[0m\x1b[33mb\x1b[0m\n"
    );
    let mut port = PortResult::occupied(80, vec![node()]);
    port.processes[0].status = ProcessStatus::Failed;
    port.processes[0].error = Some("why".into());
    let out = render_table(&[port], &TableOptions::new(RunMode::Kill));
    assert!(out.starts_with("Port \x1b[1;36m80\x1b[0m — in use\n"));
    assert!(out.contains("(PID 44122): \x1b[31mwhy\x1b[0m\n"));
}

#[test]
fn durations() {
    assert_eq!(human_duration(0), "0s");
    assert_eq!(human_duration(59), "59s");
    assert_eq!(human_duration(60), "1m 0s");
    assert_eq!(human_duration(764), "12m 44s");
    assert_eq!(human_duration(3600), "1h 0m 0s");
    assert_eq!(human_duration(3733), "1h 2m 13s");
    assert_eq!(human_duration(86399), "23h 59m 59s");
    assert_eq!(human_duration(86400), "1d 0h 0m");
    assert_eq!(human_duration(187980), "2d 4h 13m");
    assert_eq!(human_duration(187980 + 59), "2d 4h 13m");
    assert_eq!(human_duration(u64::MAX), "213503982334601d 7h 0m");
}

#[test]
fn long_texts_are_cut() {
    assert_eq!(truncate("abc", 3), "abc");
    assert_eq!(truncate("abcd", 3), "ab…");
    assert_eq!(truncate("éééé", 3), "éé…");
    assert_eq!(truncate("abc", 0), "…");
    assert_eq!(truncate("", 0), "");
    let row = |command: String| {
        let mut p = node();
        p.command = Some(command);
        ProcessResult::from(&p)
    };
    assert_eq!(details_text(&row("x".repeat(64))), "x".repeat(64));
    assert_eq!(
        details_text(&row("x".repeat(65))),
        format!("{}…", "x".repeat(63))
    );
}

#[test]
fn control_characters_are_not_shown() {
    assert_eq!(sanitize("a\tb\nc\u{85}d"), "a b c d");
    assert_eq!(sanitize("é ✨"), "é ✨");
}

#[test]
fn texts_of_cells() {
    let mut row = ProcessResult::from(&ProcessInfo::bare(1, "x".into()));
    assert_eq!(user_text(&row), "unknown");
    assert_eq!(details_text(&row), "—");
    assert_eq!(status_text(&row), "—");
    row.cwd = Some("/a\tb".into());
    assert_eq!(details_text(&row), "/a b");
    row.uptime_secs = Some(61);
    assert_eq!(details_text(&row), "up 1m 1s");
    row.user = Some("me".into());
    assert_eq!(user_text(&row), "me");
    row.status = ProcessStatus::DryRun;
    assert_eq!(status_text(&row), "[Dry Run] Would send SIGTERM");
    row.status = ProcessStatus::Killed;
    assert_eq!(status_text(&row), "Killed (SIGKILL)");
    row.signal = Some(SignalKind::Sigterm);
    assert_eq!(status_text(&row), "Killed (SIGTERM)");
    row.status = ProcessStatus::Terminated;
    assert_eq!(status_text(&row), "Terminated (SIGTERM)");
    row.status = ProcessStatus::Failed;
    assert_eq!(status_text(&row), "Failed");
}

#[test]
fn a_report_in_full() {
    let mut p = node();
    p.name = "a\"b".into();
    p.uptime_secs = Some(5);
    assert_eq!(
        render_json(&[PortResult::occupied(3000, vec![p])]),
        r#"{
  "ports": [
    {
      "port": 3000,
      "protocol": "tcp",
      "free": false,
      "error": null,
      "processes": [
        {
          "pid": 44122,
          "name": "a\"b",
          "command": "node server.js",
          "user": "alijoder",
          "uptime_secs": 5,
          "cwd": null,
          "status": "info",
          "signal": null,
          "error": null
        }
      ],
      "killed": false,
      "kill_signal": null
    }
  ]
}"#
    );
    assert_eq!(render_json(&[]), "{\n  \"ports\": []\n}");
}

#[test]
fn the_first_signal_counts() {
    let mut port = PortResult::occupied(80, vec![node(), node(), node()]);
    assert!(!was_killed(&port.processes));
    assert_eq!(kill_signal(&port.processes), None);
    port.processes[0].status = ProcessStatus::Failed;
    port.processes[0].signal = Some(SignalKind::Sigterm);
    port.processes[1].status = ProcessStatus::Killed;
    port.processes[1].signal = Some(SignalKind::Sigkill);
    port.processes[2].status = ProcessStatus::Terminated;
    port.processes[2].signal = Some(SignalKind::Sigterm);
    assert!(was_killed(&port.processes));
    assert_eq!(kill_signal(&port.processes), Some(SignalKind::Sigkill));
}

#[test]
fn statuses_have_names() {
    let names: Vec<&str> = [
        ProcessStatus::Info,
        ProcessStatus::DryRun,
        ProcessStatus::Terminated,
        ProcessStatus::Killed,
        ProcessStatus::Failed,
    ]
    .iter()
    .map(|s| s.name())
    .collect();
    assert_eq!(
        names,
        vec!["info", "dry_run", "terminated", "killed", "failed"]
    );
}

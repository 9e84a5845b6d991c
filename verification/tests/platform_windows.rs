use portkill::platform::dedup_by_pid;
use portkill::platform::windows::{parse_netstat, port_of};
use portkill::process::ProcessInfo;

const MOCK_NETSTAT: &str = r#"Active Connections

  Proto  Local Address          Foreign Address        State           PID
  TCP    0.0.0.0:3000           0.0.0.0:0              LISTENING       44122
  TCP    [::]:3000              [::]:0                 LISTENING       51204
  TCP    0.0.0.0:8080           0.0.0.0:0              LISTENING       99999
  TCP    127.0.0.1:3000         127.0.0.1:54321         ESTABLISHED     77777
  TCP    0.0.0.0:3000           0.0.0.0:0              LISTENING       12345
"#;

#[test]
fn keeps_only_listening_rows_for_target_port() {
    let rows = parse_netstat(MOCK_NETSTAT, 3000);
    assert_eq!(rows.len(), 3);
    assert_eq!(rows[0].pid, 44122);
    assert_eq!(rows[2].pid, 12345);
}

#[test]
fn ignores_established_and_other_ports() {
    let rows = parse_netstat(MOCK_NETSTAT, 3000);
    assert!(!rows.iter().any(|r| r.pid == 77777)); // ESTABLISHED
    assert!(!rows.iter().any(|r| r.pid == 99999)); // port 8080
}

#[test]
fn parses_ipv6_bracketed_addresses() {
    assert_eq!(port_of("[::]:3000"), Some(3000));
    assert_eq!(port_of("0.0.0.0:8080"), Some(8080));
    assert_eq!(port_of("127.0.0.1:3000"), Some(3000));
    assert_eq!(port_of("garbage"), None);
}

#[test]
fn empty_and_header_only_output_yields_nothing() {
    assert!(parse_netstat("", 3000).is_empty());
    assert!(parse_netstat("Proto  Local Address  Foreign  State  PID\n", 3000).is_empty());
}

#[test]
fn windows_ipv4_and_ipv6_listeners_for_same_pid_deduplicate() {
    let dual = r#"Active Connections

  Proto  Local Address          Foreign Address        State           PID
  TCP    0.0.0.0:3000           0.0.0.0:0              LISTENING       44122
  TCP    [::]:3000              [::]:0                 LISTENING       44122
"#;
    let rows = parse_netstat(dual, 3000);
    assert_eq!(rows.len(), 2, "both address families must be parsed");
    assert_eq!(rows[0].pid, rows[1].pid);

    let procs: Vec<ProcessInfo> = rows
        .into_iter()
        .map(|r| ProcessInfo::bare(r.pid, format!("pid-{}", r.pid)))
        .collect();
    let deduped = dedup_by_pid(procs);
    assert_eq!(deduped.len(), 1, "same PID across IPv4/IPv6 must collapse");
    assert_eq!(deduped[0].pid, 44122);
}

#[test]
fn other_netstat_lines_change_nothing() {
    let first = "  TCP    0.0.0.0:3000    0.0.0.0:0    LISTENING    44122\n";
    let other = "  UDP    0.0.0.0:3000    *:*                       5353\n";
    let last = "  TCP    [::]:3000       [::]:0       LISTENING    51204\n";
    let with = parse_netstat(&format!("{first}{other}{last}"), 3000);
    let without = parse_netstat(&format!("{first}{last}"), 3000);
    assert_eq!(with, without);
    assert_eq!(with.len(), 2);
}

use portkill::platform::dedup_by_pid;
use portkill::platform::macos::{
    parse_lsof_listen, parse_mac_netstat_listening, process_from_row,
};
use portkill::process::ProcessInfo;

const MOCK_LSOF: &str = r#"COMMAND   PID  USER   FD   TYPE DEVICE SIZE/OFF NODE NAME
node    44122 alijoder   21u  IPv4  12345      0t0  TCP 127.0.0.1:3000 (LISTEN)
vite    51204 alijoder   12u  IPv6  54321      0t0  TCP [::1]:3000 (LISTEN)
"#;

#[test]
fn parses_pid_command_user_and_skips_header() {
    let rows = parse_lsof_listen(MOCK_LSOF, 3000);
    assert_eq!(rows.len(), 2);

    assert_eq!(rows[0].pid, 44122);
    assert_eq!(rows[0].command, "node");
    assert_eq!(rows[0].user.as_deref(), Some("alijoder"));
    assert!(rows[0].name.contains("127.0.0.1:3000"));

    assert_eq!(rows[1].pid, 51204);
    assert_eq!(rows[1].command, "vite");
}

#[test]
fn command_with_spaces_parses_correctly() {
    let spaced = r#"COMMAND   PID  USER   FD   TYPE DEVICE SIZE/OFF NODE NAME
Google Chrome  44122 alijoder  21u  IPv4  12345  0t0  TCP 127.0.0.1:3000 (LISTEN)
"#;
    let rows = parse_lsof_listen(spaced, 3000);
    assert_eq!(rows.len(), 1);
    assert_eq!(rows[0].command, "Google Chrome");
    assert_eq!(rows[0].pid, 44122);
    assert_eq!(rows[0].user.as_deref(), Some("alijoder"));
    assert!(rows[0].name.contains("127.0.0.1:3000"));
}

#[test]
fn user_with_spaces_parses_correctly() {
    let spaced = r#"COMMAND   PID  USER   FD   TYPE DEVICE SIZE/OFF NODE NAME
node    44122 John Smith  21u  IPv4  12345  0t0  TCP 127.0.0.1:3000 (LISTEN)
"#;
    let rows = parse_lsof_listen(spaced, 3000);
    assert_eq!(rows.len(), 1);
    assert_eq!(rows[0].command, "node");
    assert_eq!(rows[0].pid, 44122);
    assert_eq!(rows[0].user.as_deref(), Some("John Smith"));
    assert!(rows[0].name.contains("127.0.0.1:3000"));
}

#[test]
fn command_and_user_with_spaces_over_ipv6() {
    let spaced = r#"COMMAND   PID  USER   FD   TYPE DEVICE SIZE/OFF NODE NAME
Google Chrome  65432 John Smith  9u   IPv6  99999  0t0  TCP [::1]:3000 (LISTEN)
"#;
    let rows = parse_lsof_listen(spaced, 3000);
    assert_eq!(rows.len(), 1);
    assert_eq!(rows[0].command, "Google Chrome");
    assert_eq!(rows[0].pid, 65432);
    assert_eq!(rows[0].user.as_deref(), Some("John Smith"));
    assert!(rows[0].name.contains("[::1]:3000"));
    assert!(rows[0].name.contains("(LISTEN)"));
}

#[test]
fn rejects_non_listen_and_unrelated_rows() {
    let messy = r#"COMMAND   PID  USER   FD   TYPE DEVICE SIZE/OFF NODE NAME
rapportd   447 alijoder  cwd   DIR    1,4      258   481 /System
stable     464 alijoder    3u  IPv4  99998      0t0  TCP 127.0.0.1:3000        (ESTABLISHED)
ControlCe  481 alijoder  txt   REG    1,4   379664   314 /usr/bin/foo
outbound   512 alijoder    7u  IPv4  99997      0t0  TCP 1.2.3.4:3000          (ESTABLISHED)
offport    555 alijoder   11u  IPv4  99996      0t0  TCP 127.0.0.1:8080         (LISTEN)
real       600 alijoder    5u  IPv6  99995      0t0  TCP [::1]:3000             (LISTEN)
"#;
    let rows = parse_lsof_listen(messy, 3000);
    assert_eq!(rows.len(), 1);
    assert_eq!(rows[0].pid, 600);
    assert_eq!(rows[0].command, "real");
}

#[test]
fn skips_header_blank_and_garbled_rows() {
    let out = parse_lsof_listen(
        "COMMAND  PID USER FD DEVICE SIZE/OFF NODE NAME\n\
         \n\
         NOT_DATA\n\
         node 9999 alijoder 3u IPv4 1 0t0 TCP 1.2.3.4:3000 (LISTEN)\n",
        3000,
    );
    assert_eq!(out.len(), 1);
    assert_eq!(out[0].pid, 9999);
}

#[test]
fn empty_output_returns_no_rows() {
    assert!(parse_lsof_listen("", 3000).is_empty());
    assert!(
        parse_lsof_listen("COMMAND PID USER FD DEVICE SIZE/OFF NODE NAME\n", 3000).is_empty()
    );
}

#[test]
fn multiple_processes_sharing_a_port_are_both_parsed() {
    let rows = parse_lsof_listen(MOCK_LSOF, 3000);
    let pids: Vec<u32> = rows.iter().map(|r| r.pid).collect();
    assert!(pids.contains(&44122));
    assert!(pids.contains(&51204));
}

#[test]
fn matching_a_different_port_keeps_only_matching_listeners() {
    // Same raw output, but searching port 8080 must ignore the two 3000
    // listeners entirely.
    let (a, b) = (
        parse_lsof_listen(MOCK_LSOF, 8080).is_empty(),
        parse_lsof_listen(MOCK_LSOF, 3000).len(),
    );
    assert!(a);
    assert_eq!(b, 2);
}

#[test]
fn port_80_ignores_8080_and_8000_listeners() {
    let raw = "COMMAND PID USER FD TYPE DEVICE SIZE/OFF NODE NAME\n\
               nginx 100 alijoder 3u IPv4 4444 0t0 TCP 127.0.0.1:80 (LISTEN)\n\
               node  200 alijoder 4u IPv4 5555 0t0 TCP 127.0.0.1:8080 (LISTEN)\n\
               go    300 alijoder 5u IPv4 6666 0t0 TCP [::1]:8000 (LISTEN)\n";
    let rows = parse_lsof_listen(raw, 80);
    assert_eq!(rows.len(), 1, "only the true :80 listener should match");
    assert_eq!(rows[0].pid, 100);
    assert!(rows[0].name.contains("127.0.0.1:80 (LISTEN)"));
}

#[test]
fn row_with_non_numeric_pid_is_skipped() {
    let out = parse_lsof_listen(
        "COMMAND PID USER FD DEVICE SIZE/OFF NODE NAME\nnode abc alijoder 3u IPv4 1\n",
        3000,
    );
    assert!(out.is_empty());
}

// Realistic macOS `netstat -an -p tcp` output with one privileged hijacked
// port (80) plus other unrelated sockets.
const MOCK_NETSTAT: &str = r#"Active Internet connections (including servers)
Proto Recv-Q Send-Q  Local Address          Foreign Address        (state)
tcp4       0      0  127.0.0.1.80           *.*                    LISTEN
tcp4       0      0  127.0.0.1.3000         *.*                    LISTEN
tcp6       0      0  ::1.80                *.*                    LISTEN
tcp4       0      0  10.0.0.5.53338        10.0.0.1.443            ESTABLISHED
tcp4       0      0  *.22                  *.*                    LISTEN
"#;

#[test]
fn netstat_detects_ipv4_listen_on_target_port() {
    assert!(parse_mac_netstat_listening(MOCK_NETSTAT, 80));
    assert!(parse_mac_netstat_listening(MOCK_NETSTAT, 3000));
}

#[test]
fn netstat_detects_ipv6_listen_on_target_port() {
    assert!(parse_mac_netstat_listening(MOCK_NETSTAT, 80));
}

#[test]
fn netstat_detects_wildcard_listener() {
    assert!(parse_mac_netstat_listening(MOCK_NETSTAT, 22));
}

#[test]
fn netstat_ignores_unrelated_ports() {
    assert!(!parse_mac_netstat_listening(MOCK_NETSTAT, 8080));
    assert!(!parse_mac_netstat_listening(MOCK_NETSTAT, 443));
}

#[test]
fn netstat_ignores_established_and_non_listen_rows() {
    // Port 443 is only an *outbound* established connection here — it must
    // not count as bound, and the foreign address `.443` must not be
    // confused with a local listener.
    assert!(!parse_mac_netstat_listening(MOCK_NETSTAT, 443));
    assert!(!parse_mac_netstat_listening(MOCK_NETSTAT, 53338));
}

#[test]
fn netstat_empty_or_header_only_is_free() {
    assert!(!parse_mac_netstat_listening("", 80));
    assert!(!parse_mac_netstat_listening(
        "Active Internet connections (including servers)\nProto Recv-Q Send-Q Local Address Foreign Address (state)\n",
        80,
    ));
}

#[test]
fn netstat_port_suffix_must_match_exactly() {
    let out = "tcp4 0 0 127.0.0.1.8001 *.* LISTEN\ntcp4 0 0 127.0.0.1.180 *.* LISTEN\n";
    assert!(!parse_mac_netstat_listening(out, 80));
}

#[test]
fn netstat_non_tcp_protocol_rows_are_ignored() {
    let out = "tcp4 0 0 127.0.0.1.80 *.* LISTEN\nudp4 0 0 127.0.0.1.80 *.*\n";
    assert!(parse_mac_netstat_listening(out, 80));
}

#[test]
fn lsof_empty_but_netstat_occupied_is_access_denied() {
    let raw_lsof = "COMMAND PID USER FD DEVICE SIZE/OFF NODE NAME\n";
    assert!(parse_lsof_listen(raw_lsof, 80).is_empty());
    assert!(parse_mac_netstat_listening(MOCK_NETSTAT, 80));
}

#[test]
fn macos_ipv4_and_ipv6_listeners_for_same_pid_deduplicate() {
    let dual = r#"COMMAND   PID  USER   FD   TYPE DEVICE SIZE/OFF NODE NAME
node    44122 alijoder   21u  IPv4  12345      0t0  TCP 0.0.0.0:3000 (LISTEN)
node    44122 alijoder   22u  IPv6  54321      0t0  TCP [::]:3000 (LISTEN)
"#;
    let rows = parse_lsof_listen(dual, 3000);
    assert_eq!(rows.len(), 2, "both address families must be parsed");

    let procs: Vec<ProcessInfo> = rows.into_iter().map(process_from_row).collect();
    let deduped = dedup_by_pid(procs);
    assert_eq!(deduped.len(), 1, "same PID across IPv4/IPv6 must collapse");
    assert_eq!(deduped[0].pid, 44122);
    assert_eq!(deduped[0].name, "node");
}

#[test]
fn a_listener_is_one_of_a_single_port() {
    let out = "COMMAND PID USER FD TYPE DEVICE SIZE/OFF NODE NAME\n\
               node 44122 me 21u IPv4 12345 0t0 TCP 127.0.0.1:8080 (LISTEN)\n";
    let found: Vec<u16> = [8, 80, 808, 8080, 18080]
        .into_iter()
        .filter(|port| !parse_lsof_listen(out, *port).is_empty())
        .collect();
    assert_eq!(found, vec![8080]);
}

#[test]
fn other_lsof_lines_change_nothing() {
    let heading = "COMMAND PID USER FD TYPE DEVICE SIZE/OFF NODE NAME\n";
    let first = "node 44122 me 21u IPv4 12345 0t0 TCP 127.0.0.1:3000 (LISTEN)\n";
    let other = "node 44122 me cwd DIR 1,4 640 12345 /Users/me\n";
    let last = "vite 51204 me 12u IPv6 54321 0t0 TCP [::1]:3000 (LISTEN)\n";
    let with = parse_lsof_listen(&format!("{heading}{first}{other}{last}"), 3000);
    let without = parse_lsof_listen(&format!("{heading}{first}{last}"), 3000);
    assert_eq!(with, without);
    assert_eq!(with.len(), 2);
}

use std::collections::HashSet;

use portkill::error::AppError;
use portkill::platform::linux::{
    inode_from_socket_link, is_pid_dir, parse_cmdline, parse_proc_net_tcp, parse_status_name,
    pids_or_access_denied, port_from_address,
};

const MOCK_TCP: &str = r#"  sl  local_address rem_address   st tx_queue rx_queue tr tm->when retrnsmt   uid  timeout inode
   0: 0100007F:0BB8 00000000:0000 0A 00000000:00000000 00:00000000 00000000  1000        0 12345 1 0000000000000000 100 0 0 10 0
   1: 00000000:1F90 00000000:0000 0A 00000000:00000000 00:00000000 00000000  1000        0 54321 1 0000000000000000 100 0 0 10 0
   2: 0100007F:0BB8 00000000:0000 01 00000000:00000000 00:00000000 00000000  1000        0 99999 1 0000000000000000 100 0 0 10 0
   3: 0100007F:0BB9 00000000:0000 0A 00000000:00000000 00:00000000 00000000  1000        0 77777 1 0000000000000000 100 0 0 10 0
"#;

#[test]
fn parses_hex_port_and_inode() {
    let entries = parse_proc_net_tcp(MOCK_TCP);
    assert_eq!(entries.len(), 4);

    // 0BB8 -> 3000, LISTEN(0A), inode 12345
    assert_eq!(entries[0].local_port, 3000);
    assert_eq!(entries[0].state, 0x0A);
    assert_eq!(entries[0].inode, 12345);

    // 1F90 -> 8080
    assert_eq!(entries[1].local_port, 8080);

    assert_eq!(entries[2].local_port, 3000);
    assert_eq!(entries[2].state, 0x01);
    assert_eq!(entries[2].inode, 99999);

    // different port
    assert_eq!(entries[3].local_port, 3001);
}

#[test]
fn skips_empty_and_header_lines() {
    let out = parse_proc_net_tcp("");
    assert!(out.is_empty());

    let header_only = "  sl  local_address rem_address   st ...\n";
    assert!(parse_proc_net_tcp(header_only).is_empty());
}

#[test]
fn tolerates_malformed_rows_without_panicking() {
    // Header + garbage + one valid row.
    let messy = format!(
        "  sl  local_address rem_address   st ...\n\
         NOT-A-ROW\n\
         9: ::0BB8:ZZZZ 00000000:0000 0A 0000 0000 00 0000 0000  0  0 0000\n\
         {}\n",
        "11: 0100007F:0BB8 00000000:0000 0A 00000000:00000000 00:00000000 00000000  1000 0 4242 1"
    );
    let out = parse_proc_net_tcp(&messy);
    // Only the final valid row survives.
    assert_eq!(out.len(), 1);
    assert_eq!(out[0].inode, 4242);
}

#[test]
fn port_from_address_handles_v4_and_v6_shapes() {
    assert_eq!(port_from_address("0100007F:0BB8"), Some(3000));
    assert_eq!(
        port_from_address("00000000000000000000000000000000:1F90"),
        Some(8080)
    );
    assert_eq!(port_from_address("0100007F"), None); // no colon
    assert_eq!(port_from_address("0100007F:0BBB8"), None); // 5 hex digits
}

#[test]
fn status_name_parsing() {
    let status = "Name:\tnode\nUmask:\t0022\nState:\tS (sleeping)\n";
    assert_eq!(parse_status_name(status), Some("node".into()));

    let no_name = "State:\tS (sleeping)\n";
    assert_eq!(parse_status_name(no_name), None);
}

#[test]
fn cmdline_parsing_replaces_nul_separators() {
    let bytes = b"node\0server.js\0--port\0 3000";
    assert_eq!(parse_cmdline(bytes), "node server.js --port  3000");

    assert_eq!(parse_cmdline(b""), "");
    assert_eq!(parse_cmdline(b"node\0"), "node");
    assert_eq!(parse_cmdline(b"node\0\0\0"), "node");
}

#[test]
fn is_pid_dir_accepts_numeric_only() {
    assert!(is_pid_dir("44122"));
    assert!(is_pid_dir("0"));
    assert!(!is_pid_dir(""));
    assert!(!is_pid_dir("cpu"));
    assert!(!is_pid_dir("net"));
    assert!(!is_pid_dir("self"));
    assert!(!is_pid_dir("1a2"));
    assert!(!is_pid_dir("12.5"));
}

#[test]
fn parses_socket_link_inodes() {
    assert_eq!(
        inode_from_socket_link("socket:[12345]"),
        Some(12345)
    );
    assert_eq!(
        inode_from_socket_link("socket:[54321]"),
        Some(54321)
    );
    // Non-socket descriptors must be ignored.
    assert_eq!(
        inode_from_socket_link("/usr/lib/libc.dylib"),
        None
    );
    assert_eq!(
        inode_from_socket_link("pipe:[777]"),
        None
    );
    assert_eq!(
        inode_from_socket_link("anon_inode:[eventpoll]"),
        None
    );
}

#[test]
fn no_inodes_means_port_is_free() {
    // Empty inode set => port free, regardless of the scan.
    let pids = pids_or_access_denied(3000, &HashSet::new(), |_| {
        panic!("scan must not run for an empty inode set")
    })
    .unwrap();
    assert!(pids.is_empty());
}

#[test]
fn occupied_port_with_unresolvable_pids_is_access_denied_not_free() {
    // Matching inodes exist (port is verifiably in use) but the scan finds
    // no PID — the silent "free port" trap when inspecting root-owned
    // ports. This MUST error, never return an empty list.
    let targets: HashSet<u64> = [12345, 54321].into_iter().collect();
    let err = pids_or_access_denied(80, &targets, |_| HashSet::new()).unwrap_err();
    assert!(matches!(err, AppError::AccessDenied { port: 80 }));
}

#[test]
fn resolves_pids_when_scan_matches_target_inodes() {
    // A single /proc scan yields the owning PIDs for the whole inode set.
    let targets: HashSet<u64> = [100, 200].into_iter().collect();
    let pids = pids_or_access_denied(3000, &targets, |set| {
        // Simulate two processes holding the target sockets.
        HashSet::from([set.len() as u32 * 100 + 7, set.len() as u32 * 100 + 8])
    })
    .unwrap();
    // The scan returned two PIDs for a non-empty, non-denied port.
    assert_eq!(pids.len(), 2);
}

#[test]
fn parses_full_ipv6_tcp_listen_row_shape() {
    // A realistic `/proc/net/tcp6` row: 32-hex v6 local address then :PORT.
    let tcp6 = r#"  sl  local_address                         remote_address                        st tx_queue rx_queue tr tm->when retrnsmt   uid  timeout inode
   0: 00000000000000000000000000000000:1F90 00000000000000000000000000000000:0000 0A 00000000:00000000 00:00000000 00000000     0        0 424242 1 0000000000000000 100 0 0 10 0
   1: 00000000000000000000000000000000:0BB8 00000000000000000000000000000000:0000 0A 00000000:00000000 00:00000000 00000000     0        0 777777 1 0000000000000000 100 0 0 10 0
"#;
    let entries = parse_proc_net_tcp(tcp6);
    assert_eq!(entries.len(), 2);
    assert_eq!(entries[0].local_port, 8080);
    assert_eq!(entries[0].state, 0x0A);
    assert_eq!(entries[0].inode, 424242);
    assert_eq!(entries[1].local_port, 3000);
    assert_eq!(entries[1].inode, 777777);
}

#[test]
fn other_table_lines_change_nothing() {
    let heading = "  sl  local_address rem_address   st ...\n";
    let first = "0: 0100007F:0BB8 00000000:0000 0A 0:0 0:0 0 1000 0 12345 1\n";
    let other = "1: 0100007F:ZZZZ 00000000:0000 0A 0:0 0:0 0 1000 0 12345 1\n";
    let last = "2: 00000000:1F90 00000000:0000 0A 0:0 0:0 0 1000 0 54321 1\n";
    let inodes = |text: String| -> Vec<u64> {
        parse_proc_net_tcp(&text).iter().map(|entry| entry.inode).collect()
    };
    let with = inodes(format!("{heading}{first}{other}{last}"));
    assert_eq!(with, inodes(format!("{heading}{first}{last}")));
    assert_eq!(with, vec![12345, 54321]);
}

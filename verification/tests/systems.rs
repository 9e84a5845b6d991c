use std::cell::RefCell;

use portkill::error::AppError;
use portkill::platform::linux;
use portkill::platform::linux::{ProcFs, TableRead, TcpTable};
use portkill::platform::macos;
use portkill::platform::macos::MacCommands;
use portkill::platform::windows;
use portkill::platform::windows::WindowsCommands;
use portkill::platform::{dedup_by_pid, output_of, CommandReply};
use portkill::process::ProcessInfo;

const HEADING: &str = "  sl  local_address rem_address   st\n";

fn listener(port: &str, inode: u64) -> String {
    format!("0: 00000000:{port} 00000000:0000 0A 0:0 0:0 0 1000 0 {inode} 1\n")
}

struct FakeProc {
    v4: fn() -> TableRead,
    v6: fn() -> TableRead,
    names: Vec<&'static str>,
    scanned: RefCell<u32>,
}

fn contents(text: String) -> TableRead {
    TableRead::Contents { text }
}

impl ProcFs for FakeProc {
    fn read_table(&self, table: TcpTable) -> TableRead {
        match table {
            TcpTable::V4 => (self.v4)(),
            TcpTable::V6 => (self.v6)(),
        }
    }
    fn entries(&self) -> Vec<String> {
        *self.scanned.borrow_mut() += 1;
        self.names.iter().map(|n| n.to_string()).collect()
    }
    fn links(&self, name: &String) -> Vec<String> {
        match name.as_str() {
            "10" => vec!["/dev/null".into(), "socket:[111]".into()],
            "11" => vec!["pipe:[111]".into(), "socket:[222]".into()],
            "12" => vec!["socket:[333]".into()],
            _ => vec!["socket:[111]".into()],
        }
    }
    fn status(&self, pid: u32) -> Option<String> {
        if pid == 10 {
            Some("Name:\tnode\nState:\tS\n".into())
        } else {
            None
        }
    }
    fn cmdline(&self, pid: u32) -> Option<Vec<u8>> {
        if pid == 10 {
            Some(b"node\0server.js\0".to_vec())
        } else {
            Some(Vec::new())
        }
    }
    fn cwd(&self, pid: u32) -> Option<String> {
        if pid == 10 {
            Some("/srv".into())
        } else {
            None
        }
    }
}

fn proc_with(v4: fn() -> TableRead, v6: fn() -> TableRead, names: Vec<&'static str>) -> FakeProc {
    FakeProc {
        v4,
        v6,
        names,
        scanned: RefCell::new(0),
    }
}

#[test]
fn linux_finds_the_holders_of_listening_sockets() {
    let fs = proc_with(
        || contents(format!("{HEADING}{}", listener("0BB8", 111))),
        || contents(format!("{HEADING}{}", listener("0BB8", 222))),
        vec!["self", "10", "net", "11", "12", "99999999999"],
    );
    let mut found = linux::get_processes_on_port(3000, &fs).unwrap();
    found.sort_by_key(|p| p.pid);
    assert_eq!(
        found,
        vec![
            ProcessInfo {
                pid: 10,
                name: "node".into(),
                command: Some("node server.js".into()),
                user: None,
                uptime_secs: None,
                cwd: Some("/srv".into()),
            },
            ProcessInfo::bare(11, "11".into()),
        ]
    );
    assert!(!linux::is_port_free(3000, &fs).unwrap());
    // Another port is free, and nothing is searched for it.
    let before = *fs.scanned.borrow();
    assert!(linux::is_port_free(3001, &fs).unwrap());
    assert!(linux::get_processes_on_port(3001, &fs).unwrap().is_empty());
    assert_eq!(*fs.scanned.borrow(), before);
}

#[test]
fn linux_hidden_holders_are_denied() {
    let fs = proc_with(
        || contents(format!("{HEADING}{}", listener("0050", 444))),
        || TableRead::Missing,
        vec!["10", "11"],
    );
    assert_eq!(
        linux::get_processes_on_port(80, &fs).unwrap_err(),
        AppError::AccessDenied { port: 80 }
    );
    assert!(!linux::is_port_free(80, &fs).unwrap());
}

#[test]
fn linux_unreadable_tables_are_errors() {
    let fs = proc_with(
        || TableRead::Missing,
        || TableRead::Failed {
            detail: "broken".into(),
        },
        vec![],
    );
    assert_eq!(
        linux::is_port_free(80, &fs).unwrap_err().to_string(),
        "could not read /proc/net/tcp6: broken"
    );
    let fs = proc_with(
        || TableRead::Failed {
            detail: "broken".into(),
        },
        || panic!("the second table is not read"),
        vec![],
    );
    assert_eq!(
        linux::get_processes_on_port(80, &fs).unwrap_err(),
        AppError::io("/proc/net/tcp", "broken".into())
    );
}

#[test]
fn linux_sockets_that_do_not_listen_do_not_count() {
    let fs = proc_with(
        || {
            contents(format!(
                "{HEADING}0: 00000000:0050 00000000:0000 01 0:0 0:0 0 1000 0 111 1\n"
            ))
        },
        || TableRead::Missing,
        vec!["10"],
    );
    assert!(linux::is_port_free(80, &fs).unwrap());
}

#[test]
fn linux_ports_have_four_hexadecimal_digits() {
    assert_eq!(linux::port_from_address("0:+BB8"), None);
    assert_eq!(linux::port_from_address("0:0bb8"), Some(3000));
    assert_eq!(linux::port_from_address("0:ffff"), Some(65535));
    assert_eq!(linux::port_from_address("0BB8"), Some(3000));
    assert_eq!(linux::port_from_address("0:0BBé"), None);
}

#[test]
fn linux_command_lines_that_are_not_utf8() {
    assert_eq!(linux::parse_cmdline(b"a\xff\0b\0"), "a\u{fffd} b");
    assert_eq!(linux::separate_arguments("\0x\0y\0"), "x y");
}

#[test]
fn linux_names_are_the_first_that_is_not_blank() {
    assert_eq!(
        linux::parse_status_name("Name: \nName:\t a b \nName: c\n"),
        Some("a b".into())
    );
}

struct FakeMac {
    lsof: fn() -> CommandReply,
    netstat: fn() -> CommandReply,
}
impl MacCommands for FakeMac {
    fn lsof(&self, _port: u16) -> CommandReply {
        (self.lsof)()
    }
    fn netstat(&self) -> CommandReply {
        (self.netstat)()
    }
}

fn wrote(text: &str) -> CommandReply {
    CommandReply::Ended {
        code: Some(0),
        stdout: text.as_bytes().to_vec(),
        stderr: Vec::new(),
    }
}

fn failed(code: Option<i32>, text: &str) -> CommandReply {
    CommandReply::Ended {
        code,
        stdout: b"ignored".to_vec(),
        stderr: text.as_bytes().to_vec(),
    }
}

const LSOF: &str = "COMMAND PID USER FD TYPE DEVICE SIZE/OFF NODE NAME\n\
    node 44122 me 21u IPv4 1 0t0 TCP 0.0.0.0:3000 (LISTEN)\n\
    node 44122 me 22u IPv6 2 0t0 TCP [::]:3000 (LISTEN)\n\
    vite 51204 me 12u IPv6 3 0t0 TCP [::1]:3000 (LISTEN)\n";

#[test]
fn macos_lists_each_process_once() {
    let mac = FakeMac {
        lsof: || wrote(LSOF),
        netstat: || panic!("netstat is not needed"),
    };
    let found = macos::get_processes_on_port(3000, &mac).unwrap();
    assert_eq!(
        found.iter().map(|p| (p.pid, p.name.as_str())).collect::<Vec<_>>(),
        vec![(44122, "node"), (51204, "vite")]
    );
    assert_eq!(found[0].user.as_deref(), Some("me"));
    assert!(!macos::is_port_free(3000, &mac).unwrap());
}

#[test]
fn macos_free_and_hidden_ports() {
    let free = FakeMac {
        lsof: || failed(Some(1), ""),
        netstat: || wrote("tcp4 0 0 *.22 *.* LISTEN\n"),
    };
    assert!(macos::get_processes_on_port(80, &free).unwrap().is_empty());
    assert!(macos::is_port_free(80, &free).unwrap());
    // Port 22 is shown by netstat only.
    assert_eq!(
        macos::get_processes_on_port(22, &free).unwrap_err(),
        AppError::AccessDenied { port: 22 }
    );
    assert_eq!(
        macos::is_port_free(22, &free).unwrap_err(),
        AppError::AccessDenied { port: 22 }
    );
}

#[test]
fn macos_commands_that_fail() {
    let mac = FakeMac {
        lsof: || failed(Some(2), " no luck \n"),
        netstat: || panic!("netstat is not needed"),
    };
    assert_eq!(
        macos::is_port_free(80, &mac).unwrap_err().to_string(),
        "the system command `lsof` failed: no luck"
    );
    let mac = FakeMac {
        lsof: || failed(Some(1), ""),
        netstat: || CommandReply::NotStarted {
            detail: "not found".into(),
        },
    };
    assert_eq!(
        macos::get_processes_on_port(80, &mac)
            .unwrap_err()
            .to_string(),
        "the system command `netstat` failed: could not spawn `netstat`: not found"
    );
}

#[test]
fn outputs_of_commands() {
    assert_eq!(output_of("x", wrote("é"), false).unwrap(), "é");
    assert_eq!(output_of("x", failed(Some(1), "e"), true).unwrap(), "");
    assert!(output_of("x", failed(Some(1), "e"), false).is_err());
    assert!(output_of("x", failed(None, "e"), true).is_err());
}

struct FakeWindows {
    netstat: fn() -> CommandReply,
}
impl WindowsCommands for FakeWindows {
    fn netstat(&self) -> CommandReply {
        (self.netstat)()
    }
}

#[test]
fn windows_lists_each_process_once() {
    let win = FakeWindows {
        netstat: || {
            wrote(
                "  TCP  0.0.0.0:3000  0.0.0.0:0  LISTENING  44122\r\n\
                 \u{20} TCP  [::]:3000  [::]:0  listening  44122\r\n\
                 \u{20} TCP  [::]:3000  [::]:0  LISTENING  9\r\n",
            )
        },
    };
    assert_eq!(
        windows::get_processes_on_port(3000, &win).unwrap(),
        vec![
            ProcessInfo::bare(44122, "pid-44122".into()),
            ProcessInfo::bare(9, "pid-9".into())
        ]
    );
    assert!(!windows::is_port_free(3000, &win).unwrap());
    assert!(windows::is_port_free(80, &win).unwrap());
}

#[test]
fn windows_commands_that_fail() {
    let win = FakeWindows {
        netstat: || failed(Some(1), "bad"),
    };
    assert_eq!(
        windows::is_port_free(80, &win).unwrap_err().to_string(),
        "the system command `netstat` failed: bad"
    );
    assert!(windows::get_processes_on_port(80, &win).is_err());
}

#[test]
fn windows_addresses() {
    assert_eq!(windows::port_of("[::1]"), None);
    assert_eq!(windows::port_of("[::1]3000"), None);
    assert_eq!(windows::port_of("::1:80"), Some(80));
    assert_eq!(windows::port_of("0.0.0.0:65536"), None);
    assert_eq!(windows::port_of("0.0.0.0:"), None);
}

#[test]
fn the_first_of_each_process_is_kept() {
    let p = |pid, name: &str| ProcessInfo::bare(pid, name.into());
    assert_eq!(
        dedup_by_pid(vec![p(1, "a"), p(2, "b"), p(1, "c"), p(3, "d"), p(2, "e")]),
        vec![p(1, "a"), p(2, "b"), p(3, "d")]
    );
}

#[test]
fn lsof_rows_are_counted_from_the_type_column() {
    let row = |line: &str| {
        macos::parse_lsof_listen(&format!("heading\n{line}\n"), 80)
            .iter()
            .map(|r| (r.command.clone(), r.pid, r.user.clone().unwrap(), r.name.clone()))
            .collect::<Vec<_>>()
    };
    assert_eq!(
        row("a b 7 c d 3u IPv4 x y TCP *:80 (LISTEN)"),
        vec![("a b".into(), 7, "c d".into(), "TCP *:80 (LISTEN)".into())]
    );
    // Nothing between the number and the descriptor: no user.
    assert!(row("a 7 3u IPv4 x y TCP *:80 (LISTEN)").is_empty());
    // A number that is too large.
    assert!(row("a 4294967296 c 3u IPv4 x y TCP *:80 (LISTEN)").is_empty());
    // The number comes after the type.
    assert!(row("a b c IPv4 7 y TCP *:80 (LISTEN)").is_empty());
    // No command at all.
    assert_eq!(row("7 c 3u IPv6 x y TCP *:80 (LISTEN)").len(), 1);
}

use portkill::platform::PlatformProvider;
use portkill::process::enrich::{ProcessEnricher, ProcessFacts};
use portkill::process::{placeholder_name, PortInfo, ProcessInfo, Protocol};
use portkill::error::AppError;
use portkill::render::{render_json, PortResult};

#[test]
fn process_info_bare_leaves_metadata_none() {
    let p = ProcessInfo::bare(4242, "node".into());
    assert_eq!(p.pid, 4242);
    assert_eq!(p.name, "node");
    assert!(p.command.is_none());
    assert!(p.user.is_none());
    assert!(p.uptime_secs.is_none());
    assert!(p.cwd.is_none());
}

#[test]
fn process_info_serializes_to_expected_shape() {
    let p = ProcessInfo {
        pid: 44122,
        name: "node".into(),
        command: Some("node server.js".into()),
        user: Some("alijoder".into()),
        uptime_secs: Some(3724),
        cwd: Some("/Users/alijoder/proj".into()),
    };
    let json: serde_json::Value =
        serde_json::from_str(&render_json(&[PortResult::occupied(3000, vec![p])])).unwrap();
    let obj = json["ports"][0]["processes"][0].as_object().unwrap();
    for key in ["pid", "name", "command", "user", "uptime_secs", "cwd"] {
        assert!(obj.contains_key(key), "missing serialized field {key}");
    }
    assert_eq!(obj["pid"], 44122);
    assert_eq!(obj["name"], "node");
    assert_eq!(obj["command"], "node server.js");
    assert_eq!(obj["user"], "alijoder");
    assert_eq!(obj["uptime_secs"], 3724);
    assert_eq!(obj["cwd"], "/Users/alijoder/proj");
}

#[test]
fn protocol_serializes_lowercase() {
    assert_eq!(
        serde_json::to_string(Protocol::Tcp.name()).unwrap(),
        r#""tcp""#
    );
    assert_eq!(
        serde_json::to_string(Protocol::Udp.name()).unwrap(),
        r#""udp""#
    );
}

#[test]
fn occupied_by_no_one_known() {
    let p = PortInfo::occupied_unknown(53, Protocol::Udp);
    assert_eq!(p.port, 53);
    assert_eq!(p.protocol, Protocol::Udp);
    assert!(p.process.is_none());
}

fn facts(pid: u32) -> ProcessFacts {
    ProcessFacts {
        pid,
        name: "node.exe".into(),
        cmd: vec!["node".into(), "server.js".into(), " ".into()],
        user: Some("me".into()),
        run_time: 42,
    }
}

#[test]
fn enrichment_fills_what_is_missing() {
    let enricher = ProcessEnricher::new(vec![facts(7), facts(8)]);
    let p = enricher.enrich(ProcessInfo::bare(8, "node".into()));
    assert_eq!(p.name, "node");
    assert_eq!(p.command.as_deref(), Some("node server.js"));
    assert_eq!(p.user.as_deref(), Some("me"));
    assert_eq!(p.uptime_secs, Some(42));
    assert_eq!(p.cwd, None);
}

#[test]
fn enrichment_keeps_what_is_known() {
    let enricher = ProcessEnricher::new(vec![facts(7)]);
    let known = ProcessInfo {
        pid: 7,
        name: "n".into(),
        command: Some("c".into()),
        user: Some("u".into()),
        uptime_secs: Some(1),
        cwd: Some("/".into()),
    };
    assert_eq!(enricher.enrich(known.clone()), known);
    let gone = ProcessInfo::bare(9, "x".into());
    assert_eq!(enricher.enrich(gone.clone()), gone);
    assert_eq!(
        enricher.enrich_all(vec![known.clone(), gone.clone()]),
        vec![known, gone]
    );
}

#[test]
fn enrichment_replaces_placeholders() {
    let enricher = ProcessEnricher::new(vec![facts(7)]);
    assert_eq!(placeholder_name(7), "pid-7");
    let p = enricher.enrich(ProcessInfo::bare(7, placeholder_name(7)));
    assert_eq!(p.name, "node.exe");
    let p = enricher.enrich(ProcessInfo::bare(7, placeholder_name(8)));
    assert_eq!(p.name, "pid-8");
}

#[test]
fn enrichment_without_a_command_line() {
    let mut blank = facts(7);
    blank.cmd = vec![" ".into(), "\t".into()];
    blank.user = None;
    let p = ProcessEnricher::new(vec![blank]).enrich(ProcessInfo::bare(7, "n".into()));
    assert_eq!(p.command, None);
    assert_eq!(p.user, None);
}

struct Fixed {
    free: Result<bool, AppError>,
    pids: Vec<u32>,
}
impl PlatformProvider for Fixed {
    fn get_processes_on_port(&self, _port: u16) -> Result<Vec<ProcessInfo>, AppError> {
        Ok(self
            .pids
            .iter()
            .map(|&p| ProcessInfo::bare(p, "p".into()))
            .collect())
    }
    fn is_port_free(&self, _port: u16) -> Result<bool, AppError> {
        self.free.clone()
    }
}

#[test]
fn providers_are_object_safe() {
    fn takes_dyn(_p: &dyn PlatformProvider) {}
    takes_dyn(&Fixed {
        free: Ok(true),
        pids: vec![],
    });
}

#[test]
fn gone_from_port_is_about_one_process() {
    let mut p = Fixed {
        free: Ok(true),
        pids: vec![1],
    };
    assert!(p.is_process_gone_from_port(80, 1).unwrap());
    p.free = Ok(false);
    assert!(!p.is_process_gone_from_port(80, 1).unwrap());
    assert!(p.is_process_gone_from_port(80, 2).unwrap());
    p.free = Err(AppError::AccessDenied { port: 80 });
    assert!(p.is_process_gone_from_port(80, 2).is_err());
}

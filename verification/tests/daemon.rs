use salaryman::daemon::{
    config_candidates, fallback_config_path, handle_request, plan, xdg_config_path, Action,
    Config, InnerProtocol,
};
use salaryman::ids::ServiceId;
use salaryman::protocol::SalarymanPacket;
use salaryman::service::{Service, ServiceConf};

fn id(n: u8) -> ServiceId {
    ServiceId::from_bytes([n; 16])
}

fn conf(n: u8, autostart: bool) -> ServiceConf {
    ServiceConf::from_parts(id(n), format!("svc{}", n), "sleep".to_string(), Some("60".to_string()), None, autostart)
}

fn running(n: u8, pid: u32) -> Service {
    let mut s = conf(n, false).build();
    assert!(s.start().is_ok());
    s.mark_started(pid);
    s
}

fn describe(a: &Action) -> String {
    match a {
        Action::Launch(i, p) => format!("launch {} {}", i, p.program),
        Action::Kill(i, pid) => format!("kill {} {}", i, pid),
        Action::Restart(i, pid, _) => format!("restart {} {}", i, pid),
        Action::Write(i, t) => format!("write {} {:?}", i, t),
        Action::Adopt(s, p) => format!("adopt {} {}", s.name(), p.is_some()),
        Action::Remove(i, pid) => format!("remove {} {:?}", i, pid),
        Action::Report(i, e) => format!("report {} {:?}", i, e),
        Action::Exit => "exit".to_string(),
    }
}

fn describe_all(v: &[Action]) -> Vec<String> {
    v.iter().map(describe).collect()
}

fn command_name(c: &InnerProtocol) -> String {
    match c {
        InnerProtocol::Create(c) => format!("create {}", c.get_name()),
        InnerProtocol::Delete(u) => format!("delete {}", u.to_bytes()[0]),
        InnerProtocol::Start(u) => format!("start {}", u.to_bytes()[0]),
        InnerProtocol::Stop(u) => format!("stop {}", u.to_bytes()[0]),
        InnerProtocol::Write((u, t)) => format!("write {} {}", u.to_bytes()[0], t),
        InnerProtocol::Scan => "scan".to_string(),
        InnerProtocol::Quit => "quit".to_string(),
    }
}

#[test]
fn restart_request_becomes_stop_then_start() {
    let bytes = SalarymanPacket::Restart(id(3)).serialize().unwrap();
    let (cmds, reply) = handle_request(&bytes);
    let names: Vec<String> = cmds.iter().map(command_name).collect();
    assert_eq!(names, vec!["stop 3", "start 3"]);
    assert_eq!(reply, vec![2]);
}

#[test]
fn requests_are_acknowledged() {
    for (p, expected) in [
        (SalarymanPacket::Create(conf(1, false)), "create svc1"),
        (SalarymanPacket::Delete(id(1)), "delete 1"),
        (SalarymanPacket::Start(id(1)), "start 1"),
        (SalarymanPacket::Stop(id(1)), "stop 1"),
        (SalarymanPacket::Quit, "quit"),
    ] {
        let (cmds, reply) = handle_request(&p.serialize().unwrap());
        let names: Vec<String> = cmds.iter().map(command_name).collect();
        assert_eq!(names, vec![expected]);
        assert_eq!(reply, vec![2]);
    }
}

#[test]
fn ping_is_answered_pong_and_queues_nothing() {
    let (cmds, reply) = handle_request(&[0]);
    assert!(cmds.is_empty());
    assert_eq!(reply, vec![1]);
}

#[test]
fn replies_and_garbage_are_answered_invalid() {
    for bytes in [vec![1u8], vec![2], vec![9], vec![], vec![42], vec![4, 3, 1]] {
        let (cmds, reply) = handle_request(&bytes);
        assert!(cmds.is_empty());
        assert_eq!(reply, vec![9]);
    }
}

#[test]
fn start_launches_stopped_matches_only() {
    let services = vec![conf(1, false).build(), running(1, 10), conf(2, false).build(), conf(1, false).build()];
    let alive = vec![true; 4];
    let acts = plan(&services, InnerProtocol::Start(id(1)), &alive);
    assert_eq!(describe_all(&acts), vec!["launch 0 sleep", "launch 3 sleep"]);
}

#[test]
fn stop_kills_running_matches_only() {
    let services = vec![running(1, 10), conf(1, false).build(), running(2, 20), running(1, 30)];
    let acts = plan(&services, InnerProtocol::Stop(id(1)), &vec![true; 4]);
    assert_eq!(describe_all(&acts), vec!["kill 0 10", "kill 3 30"]);
}

#[test]
fn write_goes_to_running_matches() {
    let services = vec![running(1, 10), conf(1, false).build(), running(2, 20)];
    let acts = plan(&services, InnerProtocol::Write((id(1), "go".to_string())), &vec![true; 3]);
    assert_eq!(describe_all(&acts), vec!["write 0 \"go\""]);
}

#[test]
fn delete_removes_first_match() {
    let services = vec![conf(2, false).build(), running(1, 10), conf(1, false).build()];
    let acts = plan(&services, InnerProtocol::Delete(id(1)), &vec![true; 3]);
    assert_eq!(describe_all(&acts), vec!["remove 1 Some(10)"]);
    let acts = plan(&services, InnerProtocol::Delete(id(2)), &vec![true; 3]);
    assert_eq!(describe_all(&acts), vec!["remove 0 None"]);
    let acts = plan(&services, InnerProtocol::Delete(id(9)), &vec![true; 3]);
    assert!(acts.is_empty());
}

#[test]
fn scan_restarts_ended_processes() {
    let services = vec![running(1, 10), running(2, 20), conf(3, false).build()];
    let acts = plan(&services, InnerProtocol::Scan, &vec![true, false, false]);
    assert_eq!(describe_all(&acts), vec!["restart 1 20"]);
}

#[test]
fn quit_kills_everything_then_exits() {
    let services = vec![running(1, 10), conf(2, false).build(), running(3, 30)];
    let acts = plan(&services, InnerProtocol::Quit, &vec![true; 3]);
    assert_eq!(describe_all(&acts), vec!["kill 0 10", "report 1 NoProcess", "kill 2 30", "exit"]);
    let acts = plan(&Vec::new(), InnerProtocol::Quit, &Vec::new());
    assert_eq!(describe_all(&acts), vec!["exit"]);
}

#[test]
fn create_adopts_with_launch_when_autostart() {
    let acts = plan(&Vec::new(), InnerProtocol::Create(conf(5, true)), &Vec::new());
    assert_eq!(describe_all(&acts), vec!["adopt svc5 true"]);
    let acts = plan(&Vec::new(), InnerProtocol::Create(conf(5, false)), &Vec::new());
    assert_eq!(describe_all(&acts), vec!["adopt svc5 false"]);
}

#[test]
fn configuration_files_to_try() {
    assert_eq!(config_candidates(Some("my.toml"), Some("/x"), Some("/h")), vec!["my.toml"]);
    assert_eq!(
        config_candidates(None, Some("/x"), Some("/h")),
        vec!["salaryman.conf", "/x/smd/salaryman.toml", "/etc/salaryman/smd/salaryman.conf"]
    );
    assert_eq!(xdg_config_path(None, Some("/home/u")), "/home/u/.config/smd/salaryman.conf");
    assert_eq!(xdg_config_path(None, None), "/root/.config/smd/salaryman.conf");
    assert_eq!(fallback_config_path(Some("a.toml")), "a.toml");
    assert_eq!(fallback_config_path(None), "salaryman.toml");
}

#[test]
fn socket_choice() {
    let mut c = Config::new();
    assert!(c.service.is_empty());
    assert_eq!(c.socket_path("/tmp/salaryman.sock"), "/tmp/salaryman.sock");
    c.socket = Some("/run/sm.sock".to_string());
    assert_eq!(c.socket_path("/tmp/salaryman.sock"), "/run/sm.sock");
}

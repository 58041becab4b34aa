use salaryman::ids::ServiceId;
use salaryman::service::{Service, ServiceConf, ServiceError, ServiceState};
use salaryman::text::split_whitespace;

fn id() -> ServiceId {
    let mut b = [0u8; 16];
    for i in 0..16 {
        b[i] = i as u8;
    }
    ServiceId::from_bytes(b)
}

fn conf(args: Option<&str>, autostart: bool) -> ServiceConf {
    ServiceConf::from_parts(
        id(),
        "web".to_string(),
        "python3".to_string(),
        args.map(|a| a.to_string()),
        Some("/srv".to_string()),
        autostart,
    )
}

#[test]
fn identifier_text_is_hyphenated_lower_hex() {
    assert_eq!(id().to_text(), "00010203-0405-0607-0809-0a0b0c0d0e0f");
    let same: [u8; 16] = id().to_bytes();
    assert_eq!(uuid::Uuid::from_bytes(same).to_string(), id().to_text());
}

#[test]
fn fresh_identifiers_are_version_four() {
    for _ in 0..20 {
        let b = ServiceId::new_v4().to_bytes();
        assert_eq!(b[6] >> 4, 4);
        assert_eq!(b[8] >> 6, 2);
    }
    assert!(!ServiceId::new_v4().same(&ServiceId::new_v4()));
}

#[test]
fn identifiers_compare_by_bytes() {
    assert!(id().same(&id()));
    let mut other = id().to_bytes();
    other[15] = 0;
    assert!(!id().same(&ServiceId::from_bytes(other)));
    assert!(ServiceId::from_slice(&[1u8; 15]).is_none());
    assert!(ServiceId::from_slice(&[1u8; 16]).unwrap().same(&ServiceId::from_bytes([1; 16])));
}

#[test]
fn whitespace_splitting() {
    assert_eq!(split_whitespace("  -a  -b\tc \n"), vec!["-a", "-b", "c"]);
    assert_eq!(split_whitespace(""), Vec::<String>::new());
    assert_eq!(split_whitespace("   "), Vec::<String>::new());
    assert_eq!(split_whitespace("one"), vec!["one"]);
    assert_eq!(split_whitespace("a\u{3000}b\u{a0}c\u{85}d"), vec!["a", "b", "c", "d"]);
    assert_eq!(split_whitespace("x\u{200b}y"), vec!["x\u{200b}y"]);
    let s = " --port 80\x0b--verbose ";
    assert_eq!(split_whitespace(s), s.split_whitespace().collect::<Vec<_>>());
}

#[test]
fn new_conf_is_empty() {
    let c = ServiceConf::new();
    assert_eq!(c.get_name(), "");
    assert_eq!(c.get_command(), "");
    assert_eq!(c.get_args(), &None);
    assert_eq!(c.get_work_dir(), &None);
    assert!(!c.get_autostart());
    let d = ServiceConf::default();
    assert!(!c.get_uuid().same(d.get_uuid()));
}

#[test]
fn setters_change_one_field() {
    let mut c = conf(None, false);
    c.name("api").command("node");
    c.args(&Some("server.js".to_string())).work_dir(&None).autostart(true);
    assert_eq!(c.get_name(), "api");
    assert_eq!(c.get_command(), "node");
    assert_eq!(c.get_args(), &Some("server.js".to_string()));
    assert_eq!(c.get_work_dir(), &None);
    assert!(c.get_autostart());
    assert!(c.get_uuid().same(&id()));
    let copy = c.clone();
    assert_eq!(copy.get_name(), "api");
}

#[test]
fn new_from_parts_draws_an_identifier() {
    let c = ServiceConf::new_from_parts("n".to_string(), "c".to_string(), None, None, true);
    assert_eq!(c.get_name(), "n");
    assert!(c.get_autostart());
    assert_eq!(c.get_uuid().to_bytes()[6] >> 4, 4);
}

#[test]
fn start_plan_of_a_stopped_service() {
    let s = conf(Some("-m  http.server 8000"), false).build();
    assert!(!s.started());
    let plan = s.start().unwrap();
    assert_eq!(plan.dirs, vec!["./logs", "./logs/00010203-0405-0607-0809-0a0b0c0d0e0f"]);
    assert_eq!(plan.outpath, "./logs/00010203-0405-0607-0809-0a0b0c0d0e0f/web.log");
    assert_eq!(plan.errpath, "./logs/00010203-0405-0607-0809-0a0b0c0d0e0f/web.err");
    assert_eq!(plan.program, "python3");
    assert_eq!(plan.args, vec!["-m", "http.server", "8000"]);
    assert_eq!(plan.directory, Some("/srv".to_string()));
    let no_args = conf(None, false).build().start().unwrap();
    assert!(no_args.args.is_empty());
}

#[test]
fn lifecycle() {
    let mut s = Service::from_conf(&conf(None, false));
    assert_eq!(s.id().unwrap_err(), ServiceError::ProcessNotStarted);
    assert_eq!(s.stop().unwrap_err(), ServiceError::NoProcess);
    assert_eq!(s.restart().unwrap_err(), ServiceError::NoProcess);
    assert_eq!(s.state(true), ServiceState::Stopped);
    assert_eq!(s.state(false), ServiceState::Stopped);
    assert!(s.start().is_ok());
    s.mark_started(4242);
    assert!(s.started());
    assert_eq!(s.id().unwrap(), 4242);
    assert_eq!(s.outpath().as_deref(), Some("./logs/00010203-0405-0607-0809-0a0b0c0d0e0f/web.log"));
    assert_eq!(s.errpath().as_deref(), Some("./logs/00010203-0405-0607-0809-0a0b0c0d0e0f/web.err"));
    assert_eq!(s.start().unwrap_err(), ServiceError::ProcessAlreadyExists);
    assert_eq!(s.state(true), ServiceState::Running);
    assert_eq!(s.state(false), ServiceState::Failed);
    let (pid, again) = s.restart().unwrap();
    assert_eq!(pid, 4242);
    assert_eq!(again.program, "python3");
    assert_eq!(s.stop().unwrap(), 4242);
    s.mark_stopped();
    assert!(!s.started());
    assert_eq!(s.name(), "web");
    assert_eq!(s.config().get_command(), "python3");
    assert!(s.start().is_ok());
}

#[test]
fn stdin_writes() {
    let mut s = conf(None, false).build();
    assert_eq!(s.write_stdin("hi").unwrap_err(), ServiceError::NoProcess);
    assert_eq!(s.writeln_stdin("hi").unwrap_err(), ServiceError::NoProcess);
    assert!(s.start().is_ok());
    s.mark_started(1);
    assert_eq!(s.write_stdin("hi").unwrap(), "hi");
    assert_eq!(s.writeln_stdin("hi").unwrap(), "hi\n");
}

#[test]
fn autostart_plan() {
    let s = conf(None, true).build();
    assert!(s.autostart_plan().is_some());
    assert!(conf(None, false).build().autostart_plan().is_none());
    let mut running = conf(None, true).build();
    assert!(running.start().is_ok());
    running.mark_started(7);
    assert!(running.autostart_plan().is_none());
}

#[test]
fn error_messages() {
    assert_eq!(ServiceError::ProcessAlreadyExists.message(), "Process Already Exists");
    assert_eq!(ServiceError::NoProcess.message(), "No Process Associated with Service");
    assert_eq!(ServiceError::ProcessNotStarted.message(), "process not started");
}

#[test]
fn fresh_service_is_stopped() {
    let s = Service::new();
    assert!(!s.started());
    assert_eq!(s.name(), "");
    let d = Service::default();
    assert!(!d.started());
}

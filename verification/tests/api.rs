use salaryman::api::{
    endpoint_get_config, endpoint_get_config_save, endpoint_get_service, endpoint_get_services,
    endpoint_post_service, endpoint_post_stdin, endpoint_put_config, endpoint_restart_service,
    endpoint_start_service, endpoint_stop_service, ApiErrorKind, Config, IpAddress, NewService,
    SalarymanDContext, SalarymanService, ServicePath, StdinBuffer, UpdateConf, User,
};
use salaryman::ids::ServiceId;
use salaryman::service::ServiceConf;

fn id(n: u8) -> ServiceId {
    ServiceId::from_bytes([n; 16])
}

fn managed(n: u8, name: &str) -> SalarymanService {
    let c = ServiceConf::from_parts(id(n), name.to_string(), "cmd".to_string(), None, None, false);
    let s = c.build();
    SalarymanService::from_parts(c, s)
}

fn ctx() -> SalarymanDContext {
    SalarymanDContext::from_vec(vec![managed(1, "first"), managed(2, "other"), managed(1, "last")])
}

fn new_service(name: Option<&str>, command: Option<&str>) -> NewService {
    NewService {
        name: name.map(|s| s.to_string()),
        command: command.map(|s| s.to_string()),
        args: Some(Some("-v".to_string())),
        directory: Some(None),
        autostart: None,
    }
}

#[test]
fn get_service_finds_the_last_match() {
    let c = ctx();
    assert_eq!(endpoint_get_service(&c, &id(1)).unwrap().get_name(), "last");
    assert_eq!(endpoint_get_service(&c, &id(2)).unwrap().get_name(), "other");
    let e = endpoint_get_service(&c, &id(7)).unwrap_err();
    assert_eq!(e.kind, ApiErrorKind::Unavailable);
    assert_eq!(e.message, "Service Not Found");
    let path = ServicePath { service_uuid: id(2) };
    assert!(endpoint_get_service(&c, &path.service_uuid).is_ok());
}

#[test]
fn get_services_lists_in_order() {
    let names: Vec<String> = endpoint_get_services(&ctx()).iter().map(|c| c.get_name().to_string()).collect();
    assert_eq!(names, vec!["first", "other", "last"]);
}

#[test]
fn post_service_requires_name_then_command() {
    let mut c = ctx();
    let e = endpoint_post_service(&mut c, &new_service(None, None)).unwrap_err();
    assert_eq!(e.kind, ApiErrorKind::BadRequest);
    assert_eq!(e.message, "name field is required!");
    let e = endpoint_post_service(&mut c, &new_service(Some("n"), None)).unwrap_err();
    assert_eq!(e.message, "command field is required!");
    assert_eq!(c.services.len(), 3);
    assert!(c.config.service.is_empty());
}

#[test]
fn post_service_adds_to_both_lists() {
    let mut c = ctx();
    let (answer, launch) = endpoint_post_service(&mut c, &new_service(Some("new"), Some("run"))).unwrap();
    assert_eq!(answer.get_name(), "");
    assert!(launch.is_none());
    assert_eq!(c.services.len(), 4);
    let added = &c.services[3];
    assert_eq!(added.config.get_name(), "new");
    assert_eq!(added.config.get_command(), "run");
    assert_eq!(added.config.get_args(), &Some("-v".to_string()));
    assert_eq!(added.config.get_work_dir(), &None);
    assert!(!added.config.get_autostart());
    assert!(!added.service.started());
    assert_eq!(c.config.service.len(), 1);
    assert!(c.config.service[0].get_uuid().same(added.config.get_uuid()));
}

#[test]
fn post_service_with_autostart_plans_a_launch() {
    let mut c = SalarymanDContext::new();
    let mut body = new_service(Some("auto"), Some("run"));
    body.autostart = Some(true);
    body.args = None;
    let (_, launch) = endpoint_post_service(&mut c, &body).unwrap();
    let plan = launch.unwrap();
    assert_eq!(plan.program, "run");
    assert!(plan.args.is_empty());
    assert_eq!(c.services[0].config.get_args(), &None);
}

#[test]
fn lifecycle_endpoints() {
    let mut c = ctx();
    let (i, plan) = endpoint_start_service(&c, &id(1)).unwrap();
    assert_eq!(i, 2);
    assert_eq!(plan.program, "cmd");
    c.services[i].service.mark_started(99);
    assert_eq!(endpoint_start_service(&c, &id(1)).unwrap_err().kind, ApiErrorKind::Internal);
    assert_eq!(endpoint_start_service(&c, &id(1)).unwrap_err().message, "Process Already Exists");
    assert_eq!(endpoint_stop_service(&c, &id(1)).unwrap(), (2, 99));
    let (k, pid, _) = endpoint_restart_service(&c, &id(1)).unwrap();
    assert_eq!((k, pid), (2, 99));
    assert_eq!(endpoint_stop_service(&c, &id(2)).unwrap_err().kind, ApiErrorKind::Internal);
    assert_eq!(endpoint_restart_service(&c, &id(2)).unwrap_err().kind, ApiErrorKind::Internal);
    assert_eq!(endpoint_stop_service(&c, &id(2)).unwrap_err().message, "No Process Associated with Service");
    assert_eq!(endpoint_restart_service(&c, &id(2)).unwrap_err().message, "No Process Associated with Service");
    assert_eq!(endpoint_stop_service(&c, &id(9)).unwrap_err().kind, ApiErrorKind::Unavailable);
    assert_eq!(endpoint_stop_service(&c, &id(9)).unwrap_err().message, "Service Not Found");
    assert_eq!(endpoint_restart_service(&c, &id(9)).unwrap_err().message, "Service Not Found");
    assert_eq!(endpoint_start_service(&c, &id(9)).unwrap_err().message, "Service Not Found");
    assert_eq!(endpoint_restart_service(&c, &id(9)).unwrap_err().kind, ApiErrorKind::Unavailable);
    assert_eq!(endpoint_start_service(&c, &id(9)).unwrap_err().kind, ApiErrorKind::Unavailable);
}

#[test]
fn stdin_endpoint() {
    let mut c = ctx();
    let buf = |endl| StdinBuffer { stdin: "say hi".to_string(), endl };
    assert_eq!(endpoint_post_stdin(&c, &id(1), &buf(None)).unwrap(), None);
    let (i, _plan) = endpoint_start_service(&c, &id(1)).unwrap();
    c.services[i].service.mark_started(5);
    assert_eq!(endpoint_post_stdin(&c, &id(1), &buf(None)).unwrap(), Some((2, "say hi\n".to_string())));
    assert_eq!(endpoint_post_stdin(&c, &id(1), &buf(Some(true))).unwrap(), Some((2, "say hi\n".to_string())));
    assert_eq!(endpoint_post_stdin(&c, &id(1), &buf(Some(false))).unwrap(), Some((2, "say hi".to_string())));
    assert_eq!(endpoint_post_stdin(&c, &id(4), &buf(None)).unwrap_err().kind, ApiErrorKind::Unavailable);
    assert_eq!(endpoint_post_stdin(&c, &id(4), &buf(None)).unwrap_err().message, "Service Not Found");
}

#[test]
fn config_endpoints() {
    let mut c = ctx();
    c.config.user.push(User { username: "root".to_string(), token: "t0k".to_string() });
    endpoint_put_config(&mut c, &UpdateConf { address: Some(IpAddress::V4([127, 0, 0, 1])), port: None });
    assert!(matches!(c.config.address, Some(IpAddress::V4([127, 0, 0, 1]))));
    assert_eq!(c.config.port, None);
    endpoint_put_config(&mut c, &UpdateConf { address: None, port: Some(3080) });
    assert!(c.config.address.is_some());
    assert_eq!(c.config.port, Some(3080));
    let got = endpoint_get_config(&c);
    assert_eq!(got.port, Some(3080));
    assert_eq!(got.user[0].username, "root");
    let save = endpoint_get_config_save(&c);
    assert_eq!(save.user[0].token, "t0k");
    let names: Vec<&str> = save.service.iter().map(|s| s.get_name()).collect();
    assert_eq!(names, vec!["first", "other", "last"]);
    let fresh = Config::new();
    assert!(fresh.user.is_empty() && fresh.address.is_none());
}

#[test]
fn constructors() {
    let s = SalarymanService::new();
    assert_eq!(s.config.get_name(), "");
    assert!(!s.service.started());
    let c = SalarymanDContext::from_parts(vec![managed(1, "a")], "save.toml".to_string(), Config::new());
    assert_eq!(c.save_file, "save.toml");
    assert_eq!(c.services.len(), 1);
}

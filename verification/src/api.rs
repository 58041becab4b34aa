//! The HTTP management daemon: its shared state and what each endpoint does
//! with it. The HTTP layer hands each endpoint its plain inputs and turns the
//! result into a response; process work comes back as a plan or a process id.

use vstd::prelude::*;

use crate::ids::{ServiceId, is_random_layout};
use crate::service::{
    Service, ServiceConf, ServiceConfView, ServiceError, ServiceView, StartPlan, empty_conf, error_message,
    opt_chars, spec_restart, spec_start, spec_stop, start_plan, stopped_service,
};

verus! {

/// An IP address, by its octets.
#[derive(Clone, Copy, Debug)]
pub enum IpAddress {
    V4([u8; 4]),
    V6([u8; 16]),
}

/// A change of the listening address and port; absent fields stay as they are.
#[derive(Debug)]
pub struct UpdateConf {
    pub address: Option<IpAddress>,
    pub port: Option<u16>,
}

/// Text for a service's stdin; `endl` (by default true) appends a newline.
#[derive(Debug)]
pub struct StdinBuffer {
    pub stdin: String,
    pub endl: Option<bool>,
}

/// The service addressed by a request path.
#[derive(Debug)]
pub struct ServicePath {
    pub service_uuid: ServiceId,
}

/// A request to create a service. Name and command are required; arguments
/// and working directory count only when present and set; autostart is off
/// unless given.
#[derive(Debug)]
pub struct NewService {
    pub name: Option<String>,
    pub command: Option<String>,
    pub args: Option<Option<String>>,
    pub directory: Option<Option<String>>,
    pub autostart: Option<bool>,
}

/// An API user and its token.
#[derive(Debug)]
pub struct User {
    pub username: String,
    pub token: String,
}

/// Mathematical model of a [`User`].
pub struct UserView {
    pub username: Seq<char>,
    pub token: Seq<char>,
}

impl View for User {
    type V = UserView;

    open spec fn view(&self) -> UserView {
        UserView { username: self.username@, token: self.token@ }
    }
}

impl Clone for User {
    fn clone(&self) -> (u: Self)
        ensures
            u@ == self@,
    {
        User { username: self.username.clone(), token: self.token.clone() }
    }
}

/// The management daemon's configuration.
#[derive(Debug)]
pub struct Config {
    pub address: Option<IpAddress>,
    pub port: Option<u16>,
    pub user: Vec<User>,
    pub service: Vec<ServiceConf>,
}

/// Mathematical model of a [`Config`].
pub struct ConfigView {
    pub address: Option<IpAddress>,
    pub port: Option<u16>,
    pub user: Seq<UserView>,
    pub service: Seq<ServiceConfView>,
}

/// The views of a sequence of users.
pub open spec fn users_view(v: Seq<User>) -> Seq<UserView> {
    v.map_values(|u: User| u@)
}

/// The views of a sequence of configurations.
pub open spec fn confs_view(v: Seq<ServiceConf>) -> Seq<ServiceConfView> {
    v.map_values(|c: ServiceConf| c@)
}

impl View for Config {
    type V = ConfigView;

    open spec fn view(&self) -> ConfigView {
        ConfigView {
            address: self.address,
            port: self.port,
            user: users_view(self.user@),
            service: confs_view(self.service@),
        }
    }
}

/// A copy of a list of users.
fn clone_users(v: &Vec<User>) -> (r: Vec<User>)
    ensures
        users_view(r@) == users_view(v@),
{
    let mut r: Vec<User> = Vec::new();
    let mut i: usize = 0;
    while i < v.len()
        invariant
            i <= v@.len(),
            users_view(r@) == users_view(v@).take(i as int),
        decreases v@.len() - i,
    {
        let ghost before = users_view(r@);
        let u = v[i].clone();
        r.push(u);
        assert(users_view(r@) =~= before.push(v@[i as int]@));
        assert(users_view(v@).take(i + 1) =~= users_view(v@).take(i as int).push(v@[i as int]@));
        i = i + 1;
    }
    assert(users_view(v@).take(v@.len() as int) =~= users_view(v@));
    r
}

/// A copy of a list of configurations.
fn clone_confs(v: &Vec<ServiceConf>) -> (r: Vec<ServiceConf>)
    ensures
        confs_view(r@) == confs_view(v@),
{
    let mut r: Vec<ServiceConf> = Vec::new();
    let mut i: usize = 0;
    while i < v.len()
        invariant
            i <= v@.len(),
            confs_view(r@) == confs_view(v@).take(i as int),
        decreases v@.len() - i,
    {
        let ghost before = confs_view(r@);
        let c = v[i].clone();
        r.push(c);
        assert(confs_view(r@) =~= before.push(v@[i as int]@));
        assert(confs_view(v@).take(i + 1) =~= confs_view(v@).take(i as int).push(v@[i as int]@));
        i = i + 1;
    }
    assert(confs_view(v@).take(v@.len() as int) =~= confs_view(v@));
    r
}

impl Config {
    /// An empty configuration.
    pub fn new() -> (c: Config)
        ensures
            c@.address is None,
            c@.port is None,
            c@.user.len() == 0,
            c@.service.len() == 0,
    {
        Config { address: None, port: None, user: Vec::new(), service: Vec::new() }
    }
}

impl Clone for Config {
    fn clone(&self) -> (c: Self)
        ensures
            c@ == self@,
    {
        Config {
            address: self.address,
            port: self.port,
            user: clone_users(&self.user),
            service: clone_confs(&self.service),
        }
    }
}

/// A managed service: its configuration as created and the service itself.
#[derive(Debug)]
pub struct SalarymanService {
    pub config: ServiceConf,
    pub service: Service,
}

/// Mathematical model of a [`SalarymanService`].
pub struct ManagedView {
    pub config: ServiceConfView,
    pub service: ServiceView,
}

impl View for SalarymanService {
    type V = ManagedView;

    open spec fn view(&self) -> ManagedView {
        ManagedView { config: self.config@, service: self.service@ }
    }
}

impl SalarymanService {
    /// A managed service with empty configurations and fresh identifiers.
    pub fn new() -> (s: SalarymanService)
        ensures
            s@.config == empty_conf(s@.config.uuid),
            s@.service == stopped_service(empty_conf(s@.service.conf.uuid)),
            is_random_layout(s@.config.uuid),
            is_random_layout(s@.service.conf.uuid),
    {
        SalarymanService { config: ServiceConf::new(), service: Service::new() }
    }

    /// A managed service of the given parts.
    pub fn from_parts(config: ServiceConf, service: Service) -> (s: SalarymanService)
        ensures
            s@ == (ManagedView { config: config@, service: service@ }),
    {
        SalarymanService { config, service }
    }
}

/// The daemon's shared state: the managed services, the file the
/// configuration is saved to, and the configuration.
#[derive(Debug)]
pub struct SalarymanDContext {
    pub services: Vec<SalarymanService>,
    pub save_file: String,
    pub config: Config,
}

/// The views of a sequence of managed services.
pub open spec fn managed_view(v: Seq<SalarymanService>) -> Seq<ManagedView> {
    v.map_values(|s: SalarymanService| s@)
}

impl SalarymanDContext {
    /// No services, no save file, an empty configuration.
    pub fn new() -> (c: SalarymanDContext)
        ensures
            c.services@.len() == 0,
            c.save_file@.len() == 0,
            c.config@.address is None,
            c.config@.port is None,
            c.config@.user.len() == 0,
            c.config@.service.len() == 0,
    {
        SalarymanDContext { services: Vec::new(), save_file: String::new(), config: Config::new() }
    }

    /// The state of the given parts.
    pub fn from_parts(services: Vec<SalarymanService>, save_file: String, config: Config) -> (c: SalarymanDContext)
        ensures
            managed_view(c.services@) == managed_view(services@),
            c.save_file@ == save_file@,
            c.config@ == config@,
    {
        SalarymanDContext { services, save_file, config }
    }

    /// The state of the given services, with no save file and an empty configuration.
    pub fn from_vec(services: Vec<SalarymanService>) -> (c: SalarymanDContext)
        ensures
            managed_view(c.services@) == managed_view(services@),
            c.save_file@.len() == 0,
            c.config@.address is None,
            c.config@.port is None,
            c.config@.service.len() == 0,
            c.config@.user.len() == 0,
    {
        SalarymanDContext { services, save_file: String::new(), config: Config::new() }
    }
}

/// The kind of an endpoint's failure, as an HTTP status class.
#[derive(PartialEq, Eq, Structural, Clone, Copy, Debug)]
pub enum ApiErrorKind {
    /// The request lacks a required field.
    BadRequest,
    /// No service has the requested identifier.
    Unavailable,
    /// The service refused the operation.
    Internal,
}

/// An endpoint's failure and its message.
#[derive(Debug)]
pub struct ApiError {
    pub kind: ApiErrorKind,
    pub message: String,
}

/// The position of the last service among the first `n` whose configuration
/// has identifier `u`.
pub open spec fn last_match(services: Seq<ManagedView>, u: Seq<u8>, n: nat) -> Option<nat>
    decreases n,
{
    if n == 0 {
        None
    } else if services[n - 1].config.uuid == u {
        Some((n - 1) as nat)
    } else {
        last_match(services, u, (n - 1) as nat)
    }
}

/// The position of the last service whose configuration has identifier `u`.
pub open spec fn find_spec(ctx: Seq<ManagedView>, u: Seq<u8>) -> Option<nat> {
    last_match(ctx, u, ctx.len())
}

/// A found position is in the list and has the identifier; none is found only
/// when no service has it.
pub proof fn lemma_last_match(services: Seq<ManagedView>, u: Seq<u8>, n: nat)
    requires
        n <= services.len(),
    ensures
        last_match(services, u, n) matches Some(i) ==> i < n && services[i as int].config.uuid == u
            && forall|j: int| i < j < n ==> services[j].config.uuid != u,
        last_match(services, u, n) is None ==> forall|j: int| 0 <= j < n ==> services[j].config.uuid != u,
    decreases n,
{
    if n > 0 {
        lemma_last_match(services, u, (n - 1) as nat);
    }
}

/// The position of the last service whose configuration has the identifier.
fn find_service(services: &Vec<SalarymanService>, u: &ServiceId) -> (r: Option<usize>)
    ensures
        match r {
            Some(i) => find_spec(managed_view(services@), u@) == Some(i as nat),
            None => find_spec(managed_view(services@), u@) is None,
        },
        r matches Some(i) ==> i < services@.len(),
{
    let ghost mv = managed_view(services@);
    let mut found: Option<usize> = None;
    let mut i: usize = 0;
    while i < services.len()
        invariant
            i <= services@.len(),
            mv == managed_view(services@),
            match found {
                Some(k) => last_match(mv, u@, i as nat) == Some(k as nat) && k < i,
                None => last_match(mv, u@, i as nat) is None,
            },
        decreases services@.len() - i,
    {
        assert(mv[i as int] == services@[i as int]@);
        if services[i].config.get_uuid().same(u) {
            found = Some(i);
        }
        i = i + 1;
    }
    found
}

/// The error of an unknown service.
fn not_found() -> (e: ApiError)
    ensures
        e.kind == ApiErrorKind::Unavailable,
        e.message@ == "Service Not Found"@,
{
    ApiError { kind: ApiErrorKind::Unavailable, message: String::from_str("Service Not Found") }
}

/// The error of a refused operation.
fn refused(e: ServiceError) -> (r: ApiError)
    ensures
        r.kind == ApiErrorKind::Internal,
        r.message@ == error_message(e),
{
    ApiError { kind: ApiErrorKind::Internal, message: String::from_str(e.message()) }
}

/// `GET /config`: the configuration.
pub fn endpoint_get_config(ctx: &SalarymanDContext) -> (c: Config)
    ensures
        c@ == ctx.config@,
{
    ctx.config.clone()
}

/// `PUT /config`: sets the address and the port that the update carries.
pub fn endpoint_put_config(ctx: &mut SalarymanDContext, update: &UpdateConf)
    ensures
        final(ctx).config@ == (ConfigView {
            address: match update.address {
                Some(a) => Some(a),
                None => old(ctx).config@.address,
            },
            port: match update.port {
                Some(p) => Some(p),
                None => old(ctx).config@.port,
            },
            ..old(ctx).config@
        }),
        managed_view(final(ctx).services@) == managed_view(old(ctx).services@),
        final(ctx).save_file@ == old(ctx).save_file@,
{
    if let Some(addr) = update.address {
        ctx.config.address = Some(addr);
    }
    if let Some(port) = update.port {
        ctx.config.port = Some(port);
    }
}

/// The configurations of the services, in order.
pub open spec fn service_confs(services: Seq<ManagedView>) -> Seq<ServiceConfView> {
    services.map_values(|s: ManagedView| s.config)
}

/// The listed configurations are those of the services, one per service, in
/// the same order.
pub proof fn lemma_service_confs(services: Seq<ManagedView>)
    ensures
        service_confs(services).len() == services.len(),
        forall|i: int| 0 <= i < services.len() ==> #[trigger] service_confs(services)[i] == services[i].config,
{
}

/// The configurations of the services, in order.
fn collect_confs(services: &Vec<SalarymanService>) -> (r: Vec<ServiceConf>)
    ensures
        confs_view(r@) == service_confs(managed_view(services@)),
{
    let mut r: Vec<ServiceConf> = Vec::new();
    let mut i: usize = 0;
    while i < services.len()
        invariant
            i <= services@.len(),
            confs_view(r@) == service_confs(managed_view(services@)).take(i as int),
        decreases services@.len() - i,
    {
        let ghost before = confs_view(r@);
        let c = services[i].config.clone();
        r.push(c);
        assert(confs_view(r@) =~= before.push(services@[i as int]@.config));
        assert(service_confs(managed_view(services@)).take(i + 1) =~= service_confs(
            managed_view(services@),
        ).take(i as int).push(services@[i as int]@.config));
        i = i + 1;
    }
    assert(service_confs(managed_view(services@)).take(services@.len() as int) =~= service_confs(
        managed_view(services@),
    ));
    r
}

/// `GET /config/save`: the configuration to write to the save file: the
/// configured address, port and users, and the configurations of the services.
pub fn endpoint_get_config_save(ctx: &SalarymanDContext) -> (c: Config)
    ensures
        c@ == (ConfigView {
            address: ctx.config@.address,
            port: ctx.config@.port,
            user: ctx.config@.user,
            service: service_confs(managed_view(ctx.services@)),
        }),
{
    Config {
        address: ctx.config.address,
        port: ctx.config.port,
        user: clone_users(&ctx.config.user),
        service: collect_confs(&ctx.services),
    }
}

/// `GET /service`: the configurations of the services, in order.
pub fn endpoint_get_services(ctx: &SalarymanDContext) -> (r: Vec<ServiceConf>)
    ensures
        confs_view(r@) == service_confs(managed_view(ctx.services@)),
{
    collect_confs(&ctx.services)
}

/// The configuration a creation request describes, with identifier `uuid`,
/// or which required field it lacks.
pub open spec fn new_service_conf(body: NewService, uuid: Seq<u8>) -> Option<ServiceConfView> {
    if body.name is None || body.command is None {
        None
    } else {
        Some(
            ServiceConfView {
                uuid,
                name: body.name->0@,
                command: body.command->0@,
                args: match body.args {
                    Some(Some(a)) => Some(a@),
                    _ => None,
                },
                directory: match body.directory {
                    Some(Some(d)) => Some(d@),
                    _ => None,
                },
                autostart: match body.autostart {
                    Some(b) => b,
                    None => false,
                },
            },
        )
    }
}

/// A creation request describes a configuration exactly when it has a name
/// and a command; the configuration then has the request's name and command,
/// its arguments and working directory when they are present and set, and
/// starts at build time exactly when the request says `true`.
pub proof fn lemma_new_service_conf(body: NewService, uuid: Seq<u8>)
    ensures
        new_service_conf(body, uuid) is Some <==> (body.name is Some && body.command is Some),
        new_service_conf(body, uuid) matches Some(c) ==> {
            &&& c.uuid == uuid
            &&& c.name == body.name->0@
            &&& c.command == body.command->0@
            &&& (body.args matches Some(Some(a)) ==> c.args == Some(a@))
            &&& (!(body.args matches Some(Some(_))) ==> c.args is None)
            &&& (body.directory matches Some(Some(d)) ==> c.directory == Some(d@))
            &&& (!(body.directory matches Some(Some(_))) ==> c.directory is None)
            &&& c.autostart == (body.autostart == Some(true))
        },
{
}

/// The innermost value of a doubly optional string.
fn flatten_opt(o: &Option<Option<String>>) -> (r: Option<String>)
    ensures
        opt_chars(r) == (match *o {
            Some(Some(s)) => Some(s@),
            _ => None,
        }),
{
    match o {
        Some(Some(s)) => Some(s.clone()),
        _ => None,
    }
}

/// `POST /service`: creates a service from the request, adds it to the
/// services and to the configuration, and answers with a fresh empty
/// configuration. When the request asks for autostart, the plan to launch the
/// new service (now last in the list) comes with it. A request without a name
/// or a command is refused, the name checked first, and changes nothing.
pub fn endpoint_post_service(ctx: &mut SalarymanDContext, body: &NewService) -> (r: Result<
    (ServiceConf, Option<StartPlan>),
    ApiError,
>)
    ensures
        match r {
            Ok((answer, launch)) => {
                let n = old(ctx).services@.len();
                let created = final(ctx).services@[n as int]@.config;
                &&& new_service_conf(*body, created.uuid) == Some(created)
                &&& body.name matches Some(name) && created.name == name@
                &&& body.command matches Some(command) && created.command == command@
                &&& created.args == (match body.args {
                    Some(Some(a)) => Some(a@),
                    _ => None,
                })
                &&& created.directory == (match body.directory {
                    Some(Some(d)) => Some(d@),
                    _ => None,
                })
                &&& created.autostart == (body.autostart == Some(true))
                &&& is_random_layout(created.uuid)
                &&& final(ctx).services@.len() == n + 1
                &&& managed_view(final(ctx).services@) == managed_view(old(ctx).services@).push(
                    ManagedView { config: created, service: stopped_service(created) },
                )
                &&& final(ctx).config@ == (ConfigView {
                    service: old(ctx).config@.service.push(created),
                    ..old(ctx).config@
                })
                &&& final(ctx).save_file@ == old(ctx).save_file@
                &&& match launch {
                    Some(p) => created.autostart && p@ == start_plan(created),
                    None => !created.autostart,
                }
                &&& answer@ == empty_conf(answer@.uuid)
                &&& is_random_layout(answer@.uuid)
            },
            Err(e) => {
                &&& body.name is None ==> e.message@ == "name field is required!"@
                &&& body.name is Some ==> body.command is None && e.message@
                    == "command field is required!"@
                &&& e.kind == ApiErrorKind::BadRequest
                &&& managed_view(final(ctx).services@) == managed_view(old(ctx).services@)
                &&& final(ctx).config@ == old(ctx).config@
                &&& final(ctx).save_file@ == old(ctx).save_file@
            },
        },
{
    let name = match &body.name {
        Some(n) => n.clone(),
        None => {
            return Err(
                ApiError {
                    kind: ApiErrorKind::BadRequest,
                    message: String::from_str("name field is required!"),
                },
            );
        },
    };
    let command = match &body.command {
        Some(c) => c.clone(),
        None => {
            return Err(
                ApiError {
                    kind: ApiErrorKind::BadRequest,
                    message: String::from_str("command field is required!"),
                },
            );
        },
    };
    let autostart = match body.autostart {
        Some(b) => b,
        None => false,
    };
    let conf = ServiceConf::new_from_parts(
        name,
        command,
        flatten_opt(&body.args),
        flatten_opt(&body.directory),
        autostart,
    );
    let service = Service::from_conf(&conf);
    let launch = service.autostart_plan();
    let ghost old_services = managed_view(ctx.services@);
    let ghost old_confs = ctx.config@.service;
    ctx.config.service.push(conf.clone());
    ctx.services.push(SalarymanService::from_parts(conf, service));
    assert(managed_view(ctx.services@) =~= old_services.push(ctx.services@[old_services.len() as int]@));
    assert(confs_view(ctx.config.service@) =~= old_confs.push(ctx.services@[old_services.len() as int]@.config));
    Ok((ServiceConf::new(), launch))
}

/// `GET /service/{uuid}`: the configuration of the last service with the
/// identifier, or `Unavailable`.
pub fn endpoint_get_service(ctx: &SalarymanDContext, u: &ServiceId) -> (r: Result<ServiceConf, ApiError>)
    ensures
        match find_spec(managed_view(ctx.services@), u@) {
            Some(i) => r matches Ok(c) && c@ == ctx.services@[i as int]@.config,
            None => r matches Err(e) && e.kind == ApiErrorKind::Unavailable && e.message@
                == "Service Not Found"@,
        },
{
    match find_service(&ctx.services, u) {
        Some(i) => Ok(ctx.services[i].config.clone()),
        None => Err(not_found()),
    }
}

/// `GET /service/{uuid}/start`: the last service with the identifier and the
/// plan to launch it; `Unavailable` when there is none, `Internal` when it
/// has a process.
pub fn endpoint_start_service(ctx: &SalarymanDContext, u: &ServiceId) -> (r: Result<(usize, StartPlan), ApiError>)
    ensures
        match find_spec(managed_view(ctx.services@), u@) {
            Some(i) => match spec_start(ctx.services@[i as int]@.service) {
                Ok(p) => r matches Ok((k, plan)) && k == i && plan@ == p,
                Err(err) => r matches Err(e) && e.kind == ApiErrorKind::Internal && e.message@
                    == error_message(err),
            },
            None => r matches Err(e) && e.kind == ApiErrorKind::Unavailable && e.message@
                == "Service Not Found"@,
        },
{
    match find_service(&ctx.services, u) {
        Some(i) => match ctx.services[i].service.start() {
            Ok(plan) => Ok((i, plan)),
            Err(e) => Err(refused(e)),
        },
        None => Err(not_found()),
    }
}

/// `GET /service/{uuid}/stop`: the last service with the identifier and the
/// process to kill; `Unavailable` when there is none, `Internal` when it has
/// no process.
pub fn endpoint_stop_service(ctx: &SalarymanDContext, u: &ServiceId) -> (r: Result<(usize, u32), ApiError>)
    ensures
        match find_spec(managed_view(ctx.services@), u@) {
            Some(i) => match spec_stop(ctx.services@[i as int]@.service) {
                Ok(pid) => r matches Ok((k, p)) && k == i && p == pid,
                Err(err) => r matches Err(e) && e.kind == ApiErrorKind::Internal && e.message@
                    == error_message(err),
            },
            None => r matches Err(e) && e.kind == ApiErrorKind::Unavailable && e.message@
                == "Service Not Found"@,
        },
{
    match find_service(&ctx.services, u) {
        Some(i) => match ctx.services[i].service.stop() {
            Ok(pid) => Ok((i, pid)),
            Err(e) => Err(refused(e)),
        },
        None => Err(not_found()),
    }
}

/// `GET /service/{uuid}/restart`: the last service with the identifier, the
/// process to kill and the plan to launch it again.
pub fn endpoint_restart_service(ctx: &SalarymanDContext, u: &ServiceId) -> (r: Result<
    (usize, u32, StartPlan),
    ApiError,
>)
    ensures
        match find_spec(managed_view(ctx.services@), u@) {
            Some(i) => match spec_restart(ctx.services@[i as int]@.service) {
                Ok((pid, p)) => r matches Ok((k, q, plan)) && k == i && q == pid && plan@ == p,
                Err(err) => r matches Err(e) && e.kind == ApiErrorKind::Internal && e.message@
                    == error_message(err),
            },
            None => r matches Err(e) && e.kind == ApiErrorKind::Unavailable && e.message@
                == "Service Not Found"@,
        },
{
    match find_service(&ctx.services, u) {
        Some(i) => match ctx.services[i].service.restart() {
            Ok((pid, plan)) => Ok((i, pid, plan)),
            Err(e) => Err(refused(e)),
        },
        None => Err(not_found()),
    }
}

/// The text a stdin request writes: the buffer, with a newline unless `endl`
/// is `false`.
pub open spec fn stdin_text(body: StdinBuffer) -> Seq<char> {
    if body.endl == Some(false) {
        body.stdin@
    } else {
        body.stdin@.push('\n')
    }
}

/// A stdin request writes its buffer followed by a newline, unless it says
/// `endl: false`, in which case it writes the buffer alone.
pub proof fn lemma_stdin_text(body: StdinBuffer)
    ensures
        body.endl == Some(false) ==> stdin_text(body) == body.stdin@,
        body.endl != Some(false) ==> stdin_text(body).len() == body.stdin@.len() + 1
            && stdin_text(body).last() == '\n' && stdin_text(body).drop_last() == body.stdin@,
{
    if body.endl != Some(false) {
        assert(stdin_text(body).drop_last() =~= body.stdin@);
    }
}

/// `PUT /service/{uuid}/write`: for the last service with the identifier,
/// when it has a process, the text to write to its stdin; nothing when it has
/// none; `Unavailable` when no service has the identifier.
pub fn endpoint_post_stdin(ctx: &SalarymanDContext, u: &ServiceId, body: &StdinBuffer) -> (r: Result<
    Option<(usize, String)>,
    ApiError,
>)
    ensures
        match find_spec(managed_view(ctx.services@), u@) {
            Some(i) => if ctx.services@[i as int]@.service.proc is Some {
                r matches Ok(Some((k, t))) && k == i && t@ == stdin_text(*body)
            } else {
                r matches Ok(None)
            },
            None => r matches Err(e) && e.kind == ApiErrorKind::Unavailable && e.message@
                == "Service Not Found"@,
        },
{
    match find_service(&ctx.services, u) {
        Some(i) => {
            let s = &ctx.services[i].service;
            if s.started() {
                let written = match body.endl {
                    Some(false) => s.write_stdin(body.stdin.as_str()),
                    _ => s.writeln_stdin(body.stdin.as_str()),
                };
                match written {
                    Ok(t) => Ok(Some((i, t))),
                    Err(e) => Err(refused(e)),
                }
            } else {
                Ok(None)
            }
        },
        None => Err(not_found()),
    }
}

} // verus!

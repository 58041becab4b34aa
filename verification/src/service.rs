//! Service configurations and the lifecycle of the process that runs a service.
//!
//! The process itself (spawning, killing, polling, its stdin) belongs to the
//! caller; this module decides what has to be done and keeps the record of it.

use vstd::prelude::*;

use crate::ids::{hyphenated_text, ServiceId, is_random_layout};
use crate::text::{split_whitespace, split_ws, strings_view};

verus! {

/// The views of an optional string.
pub open spec fn opt_chars(o: Option<String>) -> Option<Seq<char>> {
    match o {
        Some(s) => Some(s@),
        None => None,
    }
}

/// A copy of an optional string.
pub fn clone_opt_string(o: &Option<String>) -> (r: Option<String>)
    ensures
        opt_chars(r) == opt_chars(*o),
{
    match o {
        Some(s) => Some(s.clone()),
        None => None,
    }
}

/// Observable state of a service's process.
#[derive(PartialEq, Eq, Structural, Clone, Copy, Debug)]
pub enum ServiceState {
    Running,
    Failed,
    Stopped,
}

/// What a service is: its identifier, name, command line, working directory
/// and whether it starts when it is built.
#[derive(Debug)]
pub struct ServiceConf {
    uuid: ServiceId,
    name: String,
    command: String,
    args: Option<String>,
    directory: Option<String>,
    autostart: bool,
}

/// Mathematical model of a [`ServiceConf`].
pub struct ServiceConfView {
    pub uuid: Seq<u8>,
    pub name: Seq<char>,
    pub command: Seq<char>,
    pub args: Option<Seq<char>>,
    pub directory: Option<Seq<char>>,
    pub autostart: bool,
}

impl View for ServiceConf {
    type V = ServiceConfView;

    closed spec fn view(&self) -> ServiceConfView {
        ServiceConfView {
            uuid: self.uuid@,
            name: self.name@,
            command: self.command@,
            args: opt_chars(self.args),
            directory: opt_chars(self.directory),
            autostart: self.autostart,
        }
    }
}

/// A configuration with the given identifier and nothing else set.
pub open spec fn empty_conf(uuid: Seq<u8>) -> ServiceConfView {
    ServiceConfView {
        uuid,
        name: Seq::empty(),
        command: Seq::empty(),
        args: None,
        directory: None,
        autostart: false,
    }
}

impl Clone for ServiceConf {
    fn clone(&self) -> (c: Self)
        ensures
            c@ == self@,
    {
        ServiceConf {
            uuid: self.uuid,
            name: self.name.clone(),
            command: self.command.clone(),
            args: clone_opt_string(&self.args),
            directory: clone_opt_string(&self.directory),
            autostart: self.autostart,
        }
    }
}

impl ServiceConf {
    /// A new, empty configuration with a fresh random identifier.
    pub fn new() -> (c: ServiceConf)
        ensures
            c@ == empty_conf(c@.uuid),
            is_random_layout(c@.uuid),
    {
        ServiceConf {
            uuid: ServiceId::new_v4(),
            name: String::new(),
            command: String::new(),
            args: None,
            directory: None,
            autostart: false,
        }
    }

    /// A configuration made of the given parts.
    pub fn from_parts(
        uuid: ServiceId,
        name: String,
        command: String,
        args: Option<String>,
        directory: Option<String>,
        autostart: bool,
    ) -> (c: ServiceConf)
        ensures
            c@ == (ServiceConfView {
                uuid: uuid@,
                name: name@,
                command: command@,
                args: opt_chars(args),
                directory: opt_chars(directory),
                autostart,
            }),
    {
        ServiceConf { uuid, name, command, args, directory, autostart }
    }

    /// A configuration made of the given parts, with a fresh random identifier.
    pub fn new_from_parts(
        name: String,
        command: String,
        args: Option<String>,
        directory: Option<String>,
        autostart: bool,
    ) -> (c: ServiceConf)
        ensures
            c@ == (ServiceConfView {
                uuid: c@.uuid,
                name: name@,
                command: command@,
                args: opt_chars(args),
                directory: opt_chars(directory),
                autostart,
            }),
            is_random_layout(c@.uuid),
    {
        ServiceConf { uuid: ServiceId::new_v4(), name, command, args, directory, autostart }
    }

    /// The identifier of the described service.
    pub fn get_uuid(&self) -> (u: &ServiceId)
        ensures
            u@ == self@.uuid,
    {
        &self.uuid
    }

    /// The name of the described service.
    pub fn get_name(&self) -> (s: &str)
        ensures
            s@ == self@.name,
    {
        self.name.as_str()
    }

    /// The command of the described service.
    pub fn get_command(&self) -> (s: &str)
        ensures
            s@ == self@.command,
    {
        self.command.as_str()
    }

    /// The arguments of the described service.
    pub fn get_args(&self) -> (a: &Option<String>)
        ensures
            opt_chars(*a) == self@.args,
    {
        &self.args
    }

    /// The working directory of the described service.
    pub fn get_work_dir(&self) -> (d: &Option<String>)
        ensures
            opt_chars(*d) == self@.directory,
    {
        &self.directory
    }

    /// Whether the described service starts when it is built.
    pub fn get_autostart(&self) -> (b: bool)
        ensures
            b == self@.autostart,
    {
        self.autostart
    }

    /// Sets the name of the described service.
    pub fn name(&mut self, name: &str) -> (r: &mut Self)
        ensures
            r@ == (ServiceConfView { name: name@, ..old(self)@ }),
            *final(self) == *final(r),
    {
        self.name = String::from_str(name);
        self
    }

    /// Sets the command of the described service.
    pub fn command(&mut self, command: &str) -> (r: &mut Self)
        ensures
            r@ == (ServiceConfView { command: command@, ..old(self)@ }),
            *final(self) == *final(r),
    {
        self.command = String::from_str(command);
        self
    }

    /// Sets the arguments of the described service.
    pub fn args(&mut self, args: &Option<String>) -> (r: &mut Self)
        ensures
            r@ == (ServiceConfView { args: opt_chars(*args), ..old(self)@ }),
            *final(self) == *final(r),
    {
        self.args = clone_opt_string(args);
        self
    }

    /// Sets the working directory of the described service.
    pub fn work_dir(&mut self, work_dir: &Option<String>) -> (r: &mut Self)
        ensures
            r@ == (ServiceConfView { directory: opt_chars(*work_dir), ..old(self)@ }),
            *final(self) == *final(r),
    {
        self.directory = clone_opt_string(work_dir);
        self
    }

    /// Sets whether the described service starts when it is built.
    pub fn autostart(&mut self, autostart: bool) -> (r: &mut Self)
        ensures
            r@ == (ServiceConfView { autostart, ..old(self)@ }),
            *final(self) == *final(r),
    {
        self.autostart = autostart;
        self
    }

    /// Builds a stopped [`Service`] from this configuration. Whether it must be
    /// started at once is [`Service::autostart_plan`].
    pub fn build(&self) -> (s: Service)
        ensures
            s@ == stopped_service(self@),
    {
        Service::from_conf(self)
    }
}

impl Default for ServiceConf {
    fn default() -> (c: Self)
        ensures
            c@ == empty_conf(c@.uuid),
            is_random_layout(c@.uuid),
    {
        Self::new()
    }
}

/// `./logs`, the directory under which each service keeps its logs.
pub open spec fn logs_root() -> Seq<char> {
    seq!['.', '/', 'l', 'o', 'g', 's']
}

/// `./logs/<uuid>`, the log directory of a service.
pub open spec fn log_dir(uuid: Seq<u8>) -> Seq<char> {
    logs_root() + seq!['/'] + hyphenated_text(uuid)
}

/// `./logs/<uuid>/<name>.log`, where a service's standard output goes.
pub open spec fn out_log_path(c: ServiceConfView) -> Seq<char> {
    log_dir(c.uuid) + seq!['/'] + c.name + seq!['.', 'l', 'o', 'g']
}

/// `./logs/<uuid>/<name>.err`, where a service's standard error goes.
pub open spec fn err_log_path(c: ServiceConfView) -> Seq<char> {
    log_dir(c.uuid) + seq!['/'] + c.name + seq!['.', 'e', 'r', 'r']
}

/// Everything needed to launch a service's process: the directories to create
/// (an existing one is no error), the two log files to append to, the program,
/// its arguments and its working directory.
#[derive(Debug)]
pub struct StartPlan {
    pub dirs: Vec<String>,
    pub outpath: String,
    pub errpath: String,
    pub program: String,
    pub args: Vec<String>,
    pub directory: Option<String>,
}

/// Mathematical model of a [`StartPlan`].
pub struct StartPlanView {
    pub dirs: Seq<Seq<char>>,
    pub outpath: Seq<char>,
    pub errpath: Seq<char>,
    pub program: Seq<char>,
    pub args: Seq<Seq<char>>,
    pub directory: Option<Seq<char>>,
}

impl View for StartPlan {
    type V = StartPlanView;

    open spec fn view(&self) -> StartPlanView {
        StartPlanView {
            dirs: strings_view(self.dirs@),
            outpath: self.outpath@,
            errpath: self.errpath@,
            program: self.program@,
            args: strings_view(self.args@),
            directory: opt_chars(self.directory),
        }
    }
}

/// How a service with configuration `c` is launched.
pub open spec fn start_plan(c: ServiceConfView) -> StartPlanView {
    StartPlanView {
        dirs: seq![logs_root(), log_dir(c.uuid)],
        outpath: out_log_path(c),
        errpath: err_log_path(c),
        program: c.command,
        args: match c.args {
            Some(a) => split_ws(a),
            None => Seq::empty(),
        },
        directory: c.directory,
    }
}

/// Why a lifecycle operation was refused.
#[derive(PartialEq, Eq, Structural, Clone, Copy, Debug)]
pub enum ServiceError {
    /// Start was asked of a service whose process runs.
    ProcessAlreadyExists,
    /// Stop, restart or a write was asked of a service without a process.
    NoProcess,
    /// The process id was asked of a service without a process.
    ProcessNotStarted,
}

/// The human-readable message of an error.
pub open spec fn error_message(e: ServiceError) -> Seq<char> {
    match e {
        ServiceError::ProcessAlreadyExists => "Process Already Exists"@,
        ServiceError::NoProcess => "No Process Associated with Service"@,
        ServiceError::ProcessNotStarted => "process not started"@,
    }
}

impl ServiceError {
    /// The human-readable message of the error.
    pub fn message(&self) -> (m: &'static str)
        ensures
            m@ == error_message(*self),
    {
        match self {
            ServiceError::ProcessAlreadyExists => "Process Already Exists",
            ServiceError::NoProcess => "No Process Associated with Service",
            ServiceError::ProcessNotStarted => "process not started",
        }
    }
}

/// A service: its configuration, the id of its running process if it has one,
/// and the log files of its last start.
#[derive(Debug)]
pub struct Service {
    conf: ServiceConf,
    proc: Option<u32>,
    outpath: Option<String>,
    errpath: Option<String>,
}

/// Mathematical model of a [`Service`].
pub struct ServiceView {
    pub conf: ServiceConfView,
    pub proc: Option<u32>,
    pub outpath: Option<Seq<char>>,
    pub errpath: Option<Seq<char>>,
}

impl View for Service {
    type V = ServiceView;

    closed spec fn view(&self) -> ServiceView {
        ServiceView {
            conf: self.conf@,
            proc: self.proc,
            outpath: opt_chars(self.outpath),
            errpath: opt_chars(self.errpath),
        }
    }
}

/// A service built from `c` that has never run.
pub open spec fn stopped_service(c: ServiceConfView) -> ServiceView {
    ServiceView { conf: c, proc: None, outpath: None, errpath: None }
}

/// Outcome of asking to start `s`: the launch plan, or the refusal.
pub open spec fn spec_start(s: ServiceView) -> Result<StartPlanView, ServiceError> {
    if s.proc is Some {
        Err(ServiceError::ProcessAlreadyExists)
    } else {
        Ok(start_plan(s.conf))
    }
}

/// `s` once the process `pid` was launched with the logs `outpath` and `errpath`.
pub open spec fn spec_mark_started(
    s: ServiceView,
    pid: u32,
    outpath: Seq<char>,
    errpath: Seq<char>,
) -> ServiceView {
    ServiceView { proc: Some(pid), outpath: Some(outpath), errpath: Some(errpath), ..s }
}

/// Outcome of asking to stop `s`: the process to kill, or the refusal.
pub open spec fn spec_stop(s: ServiceView) -> Result<u32, ServiceError> {
    match s.proc {
        Some(pid) => Ok(pid),
        None => Err(ServiceError::NoProcess),
    }
}

/// `s` once its process was killed.
pub open spec fn spec_mark_stopped(s: ServiceView) -> ServiceView {
    ServiceView { proc: None, ..s }
}

/// Outcome of asking to restart `s`: stop it, then start it.
pub open spec fn spec_restart(s: ServiceView) -> Result<(u32, StartPlanView), ServiceError> {
    match spec_stop(s) {
        Err(e) => Err(e),
        Ok(pid) => match spec_start(spec_mark_stopped(s)) {
            Err(e) => Err(e),
            Ok(plan) => Ok((pid, plan)),
        },
    }
}

/// Outcome of asking to write `buf` to the process of `s`: the text to write.
pub open spec fn spec_write(s: ServiceView, buf: Seq<char>) -> Result<Seq<char>, ServiceError> {
    if s.proc is Some {
        Ok(buf)
    } else {
        Err(ServiceError::NoProcess)
    }
}

/// The state of `s`, given whether its process (if any) still runs.
pub open spec fn spec_state(s: ServiceView, still_running: bool) -> ServiceState {
    if s.proc is None {
        ServiceState::Stopped
    } else if still_running {
        ServiceState::Running
    } else {
        ServiceState::Failed
    }
}

/// A change of a service's process record: a launch of process `pid` by the
/// service's start plan, or the kill of its process.
pub enum LifecycleStep {
    Started(u32),
    Stopped,
}

/// Whether `s` accepts the step: a start only without a process, a stop only
/// with one.
pub open spec fn step_accepted(s: ServiceView, step: LifecycleStep) -> bool {
    match step {
        LifecycleStep::Started(_) => spec_start(s) is Ok,
        LifecycleStep::Stopped => spec_stop(s) is Ok,
    }
}

/// `s` once the step is recorded ([`Service::mark_started`], [`Service::mark_stopped`]).
pub open spec fn apply_step(s: ServiceView, step: LifecycleStep) -> ServiceView {
    match step {
        LifecycleStep::Started(pid) => spec_mark_started(s, pid, out_log_path(s.conf), err_log_path(s.conf)),
        LifecycleStep::Stopped => spec_mark_stopped(s),
    }
}

/// `s` after the steps, each recorded in turn, when each was accepted.
pub open spec fn run_steps(s: ServiceView, steps: Seq<LifecycleStep>) -> Option<ServiceView>
    decreases steps.len(),
{
    if steps.len() == 0 {
        Some(s)
    } else {
        match run_steps(s, steps.drop_last()) {
            None => None,
            Some(t) => if step_accepted(t, steps.last()) {
                Some(apply_step(t, steps.last()))
            } else {
                None
            },
        }
    }
}

/// Builds the launch plan of a configuration.
fn make_start_plan(c: &ServiceConf) -> (p: StartPlan)
    ensures
        p@ == start_plan(c@),
{
    let id_text = c.uuid.to_text();
    let root = String::from_str("./logs");
    let dir = String::from_str("./logs").concat("/").concat(id_text.as_str());
    let base = dir.clone().concat("/").concat(c.name.as_str());
    let outpath = base.clone().concat(".log");
    let errpath = base.concat(".err");
    let args = match &c.args {
        Some(a) => split_whitespace(a.as_str()),
        None => Vec::new(),
    };
    let mut dirs: Vec<String> = Vec::new();
    dirs.push(root);
    dirs.push(dir);
    proof {
        reveal_strlit("./logs");
        reveal_strlit("/");
        reveal_strlit(".log");
        reveal_strlit(".err");
        assert("./logs"@ =~= logs_root());
        assert("/"@ =~= seq!['/']);
        assert(".log"@ =~= seq!['.', 'l', 'o', 'g']);
        assert(".err"@ =~= seq!['.', 'e', 'r', 'r']);
        assert(root@ =~= logs_root());
        assert(dir@ =~= log_dir(c@.uuid));
        assert(outpath@ =~= out_log_path(c@));
        assert(errpath@ =~= err_log_path(c@));
        assert(strings_view(dirs@) =~= seq![logs_root(), log_dir(c@.uuid)]);
        if c.args is None {
            assert(strings_view(args@) =~= Seq::<Seq<char>>::empty());
        }
    }
    StartPlan {
        dirs,
        outpath,
        errpath,
        program: c.command.clone(),
        args,
        directory: clone_opt_string(&c.directory),
    }
}

impl Default for Service {
    fn default() -> (s: Self)
        ensures
            s@ == stopped_service(empty_conf(s@.conf.uuid)),
            is_random_layout(s@.conf.uuid),
    {
        Self::new()
    }
}

impl Service {
    /// A new service with an empty configuration and a fresh identifier.
    pub fn new() -> (s: Service)
        ensures
            s@ == stopped_service(empty_conf(s@.conf.uuid)),
            is_random_layout(s@.conf.uuid),
    {
        Service { conf: ServiceConf::new(), proc: None, outpath: None, errpath: None }
    }

    /// A stopped service with a copy of the given configuration.
    pub fn from_conf(conf: &ServiceConf) -> (s: Service)
        ensures
            s@ == stopped_service(conf@),
    {
        Service { conf: conf.clone(), proc: None, outpath: None, errpath: None }
    }

    /// The configuration of the service.
    pub fn config(&self) -> (c: &ServiceConf)
        ensures
            c@ == self@.conf,
    {
        &self.conf
    }

    /// The name of the service.
    pub fn name(&self) -> (n: &str)
        ensures
            n@ == self@.conf.name,
    {
        self.conf.get_name()
    }

    /// The identifier of the service.
    pub fn uuid(&self) -> (u: &ServiceId)
        ensures
            u@ == self@.conf.uuid,
    {
        self.conf.get_uuid()
    }

    /// Asks to start the service: the plan to launch its process, or
    /// `ProcessAlreadyExists` when it has one.
    pub fn start(&self) -> (r: Result<StartPlan, ServiceError>)
        ensures
            match r {
                Ok(p) => spec_start(self@) == Ok::<StartPlanView, ServiceError>(p@),
                Err(e) => spec_start(self@) == Err::<StartPlanView, ServiceError>(e),
            },
    {
        if self.proc.is_some() {
            Err(ServiceError::ProcessAlreadyExists)
        } else {
            Ok(make_start_plan(&self.conf))
        }
    }

    /// Records that the process `pid` was launched by the service's start plan.
    /// Only a service without a process, whose start is accepted, takes a
    /// start record.
    pub fn mark_started(&mut self, pid: u32)
        requires
            old(self)@.proc is None,
        ensures
            final(self)@ == apply_step(old(self)@, LifecycleStep::Started(pid)),
    {
        let plan = make_start_plan(&self.conf);
        self.proc = Some(pid);
        self.outpath = Some(plan.outpath);
        self.errpath = Some(plan.errpath);
    }

    /// The log of standard output of the last start, if any.
    pub fn outpath(&self) -> (p: &Option<String>)
        ensures
            opt_chars(*p) == self@.outpath,
    {
        &self.outpath
    }

    /// The log of standard error of the last start, if any.
    pub fn errpath(&self) -> (p: &Option<String>)
        ensures
            opt_chars(*p) == self@.errpath,
    {
        &self.errpath
    }

    /// The plan to launch the service's process when its configuration asks
    /// for a start at build time and it has no process yet.
    pub fn autostart_plan(&self) -> (p: Option<StartPlan>)
        ensures
            match p {
                Some(plan) => self@.conf.autostart && self@.proc is None && plan@ == start_plan(
                    self@.conf,
                ),
                None => !self@.conf.autostart || self@.proc is Some,
            },
    {
        if self.conf.autostart && self.proc.is_none() {
            Some(make_start_plan(&self.conf))
        } else {
            None
        }
    }

    /// Whether the service has a process.
    pub fn started(&self) -> (b: bool)
        ensures
            b == self@.proc is Some,
    {
        self.proc.is_some()
    }

    /// The id of the service's process, or `ProcessNotStarted`.
    pub fn id(&self) -> (r: Result<u32, ServiceError>)
        ensures
            r == (match self@.proc {
                Some(pid) => Ok::<u32, ServiceError>(pid),
                None => Err(ServiceError::ProcessNotStarted),
            }),
    {
        match self.proc {
            Some(pid) => Ok(pid),
            None => Err(ServiceError::ProcessNotStarted),
        }
    }

    /// The state of the service, given whether its process (if any) still runs.
    pub fn state(&self, still_running: bool) -> (st: ServiceState)
        ensures
            st == spec_state(self@, still_running),
    {
        if self.proc.is_none() {
            ServiceState::Stopped
        } else if still_running {
            ServiceState::Running
        } else {
            ServiceState::Failed
        }
    }

    /// Asks to stop the service: the id of the process to kill, or `NoProcess`.
    pub fn stop(&self) -> (r: Result<u32, ServiceError>)
        ensures
            r == spec_stop(self@),
    {
        match self.proc {
            Some(pid) => Ok(pid),
            None => Err(ServiceError::NoProcess),
        }
    }

    /// Records that the service's process was killed. Only a service with a
    /// process, whose stop is accepted, takes a stop record.
    pub fn mark_stopped(&mut self)
        requires
            old(self)@.proc is Some,
        ensures
            final(self)@ == apply_step(old(self)@, LifecycleStep::Stopped),
    {
        self.proc = None;
    }

    /// Asks to restart the service: the process to kill and the plan to launch
    /// the new one, or `NoProcess`.
    pub fn restart(&self) -> (r: Result<(u32, StartPlan), ServiceError>)
        ensures
            match r {
                Ok((pid, p)) => spec_restart(self@) == Ok::<(u32, StartPlanView), ServiceError>(
                    (pid, p@),
                ),
                Err(e) => spec_restart(self@) == Err::<(u32, StartPlanView), ServiceError>(e),
            },
    {
        match self.proc {
            Some(pid) => Ok((pid, make_start_plan(&self.conf))),
            None => Err(ServiceError::NoProcess),
        }
    }

    /// Asks to write `buf` to the process's stdin: the text to write, or
    /// `NoProcess`.
    pub fn write_stdin(&self, buf: &str) -> (r: Result<String, ServiceError>)
        ensures
            match r {
                Ok(t) => spec_write(self@, buf@) == Ok::<Seq<char>, ServiceError>(t@),
                Err(e) => spec_write(self@, buf@) == Err::<Seq<char>, ServiceError>(e),
            },
    {
        if self.proc.is_some() {
            Ok(String::from_str(buf))
        } else {
            Err(ServiceError::NoProcess)
        }
    }

    /// Asks to write `buf` followed by a newline to the process's stdin.
    pub fn writeln_stdin(&self, buf: &str) -> (r: Result<String, ServiceError>)
        ensures
            match r {
                Ok(t) => spec_write(self@, buf@.push('\n')) == Ok::<Seq<char>, ServiceError>(t@),
                Err(e) => spec_write(self@, buf@.push('\n')) == Err::<Seq<char>, ServiceError>(e),
            },
    {
        let line = String::from_str(buf).concat("\n");
        proof {
            reveal_strlit("\n");
            assert(line@ =~= buf@.push('\n'));
        }
        self.write_stdin(line.as_str())
    }
}

/// A service with a process refuses a start; stopping it kills exactly that process.
pub proof fn lemma_started_service(s: ServiceView, pid: u32, outpath: Seq<char>, errpath: Seq<char>)
    ensures
        spec_start(spec_mark_started(s, pid, outpath, errpath)) == Err::<StartPlanView, ServiceError>(
            ServiceError::ProcessAlreadyExists,
        ),
        spec_stop(spec_mark_started(s, pid, outpath, errpath)) == Ok::<u32, ServiceError>(pid),
{
}

/// Once its stop is recorded, a service accepts a start by its own plan and
/// refuses another stop.
pub proof fn lemma_stopped_service(s: ServiceView)
    ensures
        spec_start(spec_mark_stopped(s)) == Ok::<StartPlanView, ServiceError>(start_plan(s.conf)),
        spec_stop(spec_mark_stopped(s)) == Err::<u32, ServiceError>(ServiceError::NoProcess),
{
}

/// A restart is a stop followed by a start: refused exactly when the stop is,
/// and otherwise it kills the process and launches by the plan a fresh start uses.
pub proof fn lemma_restart_is_stop_then_start(s: ServiceView)
    ensures
        spec_restart(s) == (match spec_stop(s) {
            Err(e) => Err::<(u32, StartPlanView), ServiceError>(e),
            Ok(pid) => Ok((pid, start_plan(s.conf))),
        }),
{
}

/// Recording a start or a stop never changes the configuration.
pub proof fn lemma_lifecycle_keeps_conf(s: ServiceView, pid: u32, outpath: Seq<char>, errpath: Seq<char>)
    ensures
        spec_mark_started(s, pid, outpath, errpath).conf == s.conf,
        spec_mark_stopped(s).conf == s.conf,
{
}

/// A service is `Stopped` exactly when it has no process, whatever is known of
/// the process; with a process it is `Running` while the process runs and
/// `Failed` once it has ended.
pub proof fn lemma_state(s: ServiceView, still_running: bool)
    ensures
        (spec_state(s, still_running) == ServiceState::Stopped) <==> s.proc is None,
        s.proc is Some ==> (spec_state(s, still_running) == ServiceState::Running <==> still_running),
{
}

/// A service writes to its stdin exactly when it has a process, and writes
/// the text unchanged.
pub proof fn lemma_write(s: ServiceView, buf: Seq<char>)
    ensures
        spec_write(s, buf) is Ok <==> s.proc is Some,
        spec_write(s, buf) matches Ok(t) ==> t == buf,
{
}

/// The launch plan of a configuration: create `./logs` and
/// `./logs/<uuid>`, append standard output to `./logs/<uuid>/<name>.log` and
/// standard error to `./logs/<uuid>/<name>.err`, run the command with the
/// whitespace-separated words of the arguments (none without arguments), in
/// the configured working directory.
pub proof fn lemma_start_plan_contents(c: ServiceConfView)
    ensures
        start_plan(c).dirs == seq![
            seq!['.', '/', 'l', 'o', 'g', 's'],
            seq!['.', '/', 'l', 'o', 'g', 's', '/'] + hyphenated_text(c.uuid),
        ],
        start_plan(c).outpath == seq!['.', '/', 'l', 'o', 'g', 's', '/'] + hyphenated_text(c.uuid)
            + seq!['/'] + c.name + seq!['.', 'l', 'o', 'g'],
        start_plan(c).errpath == seq!['.', '/', 'l', 'o', 'g', 's', '/'] + hyphenated_text(c.uuid)
            + seq!['/'] + c.name + seq!['.', 'e', 'r', 'r'],
        start_plan(c).program == c.command,
        c.args matches Some(a) ==> start_plan(c).args == split_ws(a),
        c.args is None ==> start_plan(c).args.len() == 0,
        start_plan(c).directory == c.directory,
{
    let d = seq!['.', '/', 'l', 'o', 'g', 's', '/'] + hyphenated_text(c.uuid);
    assert(log_dir(c.uuid) =~= d);
    assert(start_plan(c).dirs =~= seq![seq!['.', '/', 'l', 'o', 'g', 's'], d]);
}

/// The launch plan keeps both logs in the service's own log directory, which
/// it creates after `./logs`, and the two logs are different files.
pub proof fn lemma_plan_logs(c: ServiceConfView)
    ensures
        start_plan(c).dirs.len() == 2,
        start_plan(c).dirs[0] == logs_root(),
        start_plan(c).dirs[1] == log_dir(c.uuid),
        start_plan(c).outpath.subrange(0, log_dir(c.uuid).len() as int) == log_dir(c.uuid),
        start_plan(c).errpath.subrange(0, log_dir(c.uuid).len() as int) == log_dir(c.uuid),
        start_plan(c).outpath != start_plan(c).errpath,
{
    let p = start_plan(c);
    let d = log_dir(c.uuid);
    assert(p.outpath.subrange(0, d.len() as int) =~= d);
    assert(p.errpath.subrange(0, d.len() as int) =~= d);
    assert(p.outpath[p.outpath.len() - 1] == 'g');
    assert(p.errpath[p.errpath.len() - 1] == 'r');
}

/// A start is accepted exactly when the service has no process, and a stop
/// exactly when it has one: so, with the preconditions of `mark_started` and
/// `mark_stopped`, the process record changes only through an accepted start
/// or stop.
pub proof fn lemma_records_follow_acceptance(s: ServiceView)
    ensures
        s.proc is None <==> spec_start(s) is Ok,
        s.proc is Some <==> spec_stop(s) is Ok,
{
}

/// Over any sequence of recorded starts and stops, each accepted when it was
/// recorded (the only way a `Service` changes: every other operation takes it
/// by shared reference):
/// - the configuration never changes;
/// - starts and stops alternate, beginning with a start exactly when the
///   service had no process;
/// - the service has a process exactly when the last step was a start (or,
///   with no step, when it had one), and it is the process of that start;
/// - so it is `Stopped` exactly then; a process that ended keeps it started
///   (`Failed`) until a stop is recorded.
pub proof fn lemma_run_steps(s: ServiceView, steps: Seq<LifecycleStep>, still_running: bool)
    requires
        run_steps(s, steps) is Some,
    ensures
        run_steps(s, steps)->0.conf == s.conf,
        steps.len() > 0 ==> (steps[0] is Started <==> s.proc is None),
        forall|k: int| 0 < k < steps.len() ==> (#[trigger] steps[k] is Started <==> steps[k - 1] is Stopped),
        run_steps(s, steps)->0.proc == (if steps.len() == 0 {
            s.proc
        } else {
            match steps.last() {
                LifecycleStep::Started(pid) => Some(pid),
                LifecycleStep::Stopped => None,
            }
        }),
        (spec_state(run_steps(s, steps)->0, still_running) == ServiceState::Stopped) <==> (if steps.len()
            == 0 {
            s.proc is None
        } else {
            steps.last() is Stopped
        }),
    decreases steps.len(),
{
    if steps.len() > 0 {
        let prev = steps.drop_last();
        lemma_run_steps(s, prev, still_running);
        let t = run_steps(s, prev)->0;
        assert forall|k: int| 0 < k < steps.len() implies (#[trigger] steps[k] is Started <==> steps[k - 1] is Stopped) by {
            if k < steps.len() - 1 {
                assert(prev[k] == steps[k]);
                assert(prev[k - 1] == steps[k - 1]);
            } else if k >= 1 {
                assert(prev.last() == steps[k - 1]);
            }
        }
        if steps.len() > 1 {
            assert(prev[0] == steps[0]);
        }
    }
}

} // verus!

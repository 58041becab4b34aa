//! The socket daemon: how a request received on the control socket turns into
//! commands for the service loop and a reply, and what the service loop does
//! with each command.

use vstd::prelude::*;

use crate::ids::ServiceId;
use crate::protocol::{PacketView, SalarymanPacket, packet_bytes, parse_packet, response_of};
use crate::service::{
    Service, ServiceConf, ServiceConfView, ServiceError, ServiceState, ServiceView, StartPlan, StartPlanView,
    spec_state, spec_stop, start_plan, stopped_service,
};

verus! {

/// A command for the service loop.
#[derive(Debug)]
pub enum InnerProtocol {
    Create(ServiceConf),
    Delete(ServiceId),
    Start(ServiceId),
    Stop(ServiceId),
    Write((ServiceId, String)),
    Scan,
    Quit,
}

/// Mathematical model of an [`InnerProtocol`] command.
pub enum CommandView {
    Create(ServiceConfView),
    Delete(Seq<u8>),
    Start(Seq<u8>),
    Stop(Seq<u8>),
    Write(Seq<u8>, Seq<char>),
    Scan,
    Quit,
}

impl View for InnerProtocol {
    type V = CommandView;

    open spec fn view(&self) -> CommandView {
        match self {
            InnerProtocol::Create(c) => CommandView::Create(c@),
            InnerProtocol::Delete(u) => CommandView::Delete(u@),
            InnerProtocol::Start(u) => CommandView::Start(u@),
            InnerProtocol::Stop(u) => CommandView::Stop(u@),
            InnerProtocol::Write((u, s)) => CommandView::Write(u@, s@),
            InnerProtocol::Scan => CommandView::Scan,
            InnerProtocol::Quit => CommandView::Quit,
        }
    }
}

/// The views of a sequence of commands.
pub open spec fn commands_view(v: Seq<InnerProtocol>) -> Seq<CommandView> {
    v.map_values(|c: InnerProtocol| c@)
}

/// The commands a received packet asks of the service loop: a restart is a
/// stop followed by a start; pings, replies and unknown packets ask nothing.
pub open spec fn commands_for(p: PacketView) -> Seq<CommandView> {
    match p {
        PacketView::Create(c) => seq![CommandView::Create(c)],
        PacketView::Delete(u) => seq![CommandView::Delete(u)],
        PacketView::Start(u) => seq![CommandView::Start(u)],
        PacketView::Stop(u) => seq![CommandView::Stop(u)],
        PacketView::Restart(u) => seq![CommandView::Stop(u), CommandView::Start(u)],
        PacketView::Quit => seq![CommandView::Quit],
        _ => Seq::empty(),
    }
}

/// What a request of bytes `data` gives: the commands for the service loop and
/// the reply packet. Bytes that do not decode are answered `Invalid`.
pub open spec fn request_outcome(data: Seq<u8>) -> (Seq<CommandView>, PacketView) {
    match parse_packet(data) {
        Some(p) => (commands_for(p), response_of(p)),
        None => (Seq::empty(), PacketView::Invalid),
    }
}

/// Handles one request received on the control socket: the commands to queue
/// for the service loop, in order, and the encoded reply.
pub fn handle_request(data: &[u8]) -> (r: (Vec<InnerProtocol>, Vec<u8>))
    ensures
        commands_view(r.0@) == request_outcome(data@).0,
        r.1@ == packet_bytes(request_outcome(data@).1),
{
    let mut commands: Vec<InnerProtocol> = Vec::new();
    let reply = match SalarymanPacket::deserialize(data) {
        Ok(packet) => {
            let reply = packet.response();
            match packet {
                SalarymanPacket::Create(c) => commands.push(InnerProtocol::Create(c)),
                SalarymanPacket::Delete(u) => commands.push(InnerProtocol::Delete(u)),
                SalarymanPacket::Start(u) => commands.push(InnerProtocol::Start(u)),
                SalarymanPacket::Stop(u) => commands.push(InnerProtocol::Stop(u)),
                SalarymanPacket::Restart(u) => {
                    commands.push(InnerProtocol::Stop(u));
                    commands.push(InnerProtocol::Start(u));
                },
                SalarymanPacket::Quit => commands.push(InnerProtocol::Quit),
                _ => {},
            }
            reply
        },
        Err(_) => SalarymanPacket::Invalid,
    };
    assert(commands_view(commands@) =~= request_outcome(data@).0);
    let bytes = match reply.serialize() {
        Ok(b) => b,
        Err(_) => Vec::new(),
    };
    (commands, bytes)
}

/// What a request queues and how it is answered, by the packet it decodes as:
/// a creation queues the decoded configuration unchanged, a deletion, start or
/// stop queues the same command for the same identifier, a restart queues a
/// stop then a start of it, and a quit queues a quit, each answered `Okay`; a
/// ping queues nothing and is answered `Pong`; replies, and bytes that are no
/// packet, queue nothing and are answered `Invalid`.
pub proof fn lemma_request_commands(data: Seq<u8>)
    ensures
        parse_packet(data) matches Some(PacketView::Create(c)) ==> request_outcome(data) == (
            seq![CommandView::Create(c)],
            PacketView::Okay,
        ),
        parse_packet(data) matches Some(PacketView::Delete(u)) ==> request_outcome(data) == (
            seq![CommandView::Delete(u)],
            PacketView::Okay,
        ),
        parse_packet(data) matches Some(PacketView::Start(u)) ==> request_outcome(data) == (
            seq![CommandView::Start(u)],
            PacketView::Okay,
        ),
        parse_packet(data) matches Some(PacketView::Stop(u)) ==> request_outcome(data) == (
            seq![CommandView::Stop(u)],
            PacketView::Okay,
        ),
        parse_packet(data) matches Some(PacketView::Restart(u)) ==> request_outcome(data) == (
            seq![CommandView::Stop(u), CommandView::Start(u)],
            PacketView::Okay,
        ),
        parse_packet(data) == Some(PacketView::Quit) ==> request_outcome(data) == (
            seq![CommandView::Quit],
            PacketView::Okay,
        ),
        parse_packet(data) == Some(PacketView::Ping) ==> request_outcome(data) == (
            Seq::<CommandView>::empty(),
            PacketView::Pong,
        ),
        (parse_packet(data) is None || parse_packet(data) == Some(PacketView::Pong) || parse_packet(data)
            == Some(PacketView::Okay) || parse_packet(data) == Some(PacketView::Invalid))
            ==> request_outcome(data) == (Seq::<CommandView>::empty(), PacketView::Invalid),
{
}

/// A request is acknowledged with `Okay` exactly when it queues commands;
/// a ping is answered `Pong` and anything else `Invalid`, queuing nothing.
pub proof fn lemma_request_reply(data: Seq<u8>)
    ensures
        request_outcome(data).1 is Okay <==> request_outcome(data).0.len() > 0,
        request_outcome(data).1 is Pong || request_outcome(data).1 is Okay
            || request_outcome(data).1 is Invalid,
{
}

/// What the service loop does to carry out a command. Indices refer to the
/// loop's list of services as it was when the command was planned.
#[derive(Debug)]
pub enum Action {
    /// Launch service `index` by `plan`, then record its process.
    Launch(usize, StartPlan),
    /// Kill process `pid` of service `index`, then record the stop.
    Kill(usize, u32),
    /// Kill process `pid` of service `index`, record the stop, then launch it by `plan`.
    Restart(usize, u32, StartPlan),
    /// Write the text to the stdin of service `index`.
    Write(usize, String),
    /// Launch the new service by the plan, if there is one, and add it to the
    /// list unless that launch failed.
    Adopt(Service, Option<StartPlan>),
    /// Kill the process of service `index`, if it has one, then remove the
    /// service: the last service takes its place.
    Remove(usize, Option<u32>),
    /// Report that the operation asked of service `index` was refused.
    Report(usize, ServiceError),
    /// Leave the loop.
    Exit,
}

/// Mathematical model of an [`Action`].
pub enum ActionView {
    Launch(nat, StartPlanView),
    Kill(nat, u32),
    Restart(nat, u32, StartPlanView),
    Write(nat, Seq<char>),
    Adopt(ServiceView, Option<StartPlanView>),
    Remove(nat, Option<u32>),
    Report(nat, ServiceError),
    Exit,
}

impl View for Action {
    type V = ActionView;

    open spec fn view(&self) -> ActionView {
        match self {
            Action::Launch(i, p) => ActionView::Launch(*i as nat, p@),
            Action::Kill(i, pid) => ActionView::Kill(*i as nat, *pid),
            Action::Restart(i, pid, p) => ActionView::Restart(*i as nat, *pid, p@),
            Action::Write(i, t) => ActionView::Write(*i as nat, t@),
            Action::Adopt(s, p) => ActionView::Adopt(
                s@,
                match p {
                    Some(plan) => Some(plan@),
                    None => None,
                },
            ),
            Action::Remove(i, pid) => ActionView::Remove(*i as nat, *pid),
            Action::Report(i, e) => ActionView::Report(*i as nat, *e),
            Action::Exit => ActionView::Exit,
        }
    }
}

/// The views of a sequence of actions.
pub open spec fn actions_view(v: Seq<Action>) -> Seq<ActionView> {
    v.map_values(|a: Action| a@)
}

/// The views of a sequence of services.
pub open spec fn services_view(v: Seq<Service>) -> Seq<ServiceView> {
    v.map_values(|s: Service| s@)
}

/// What a command that goes through every service does to service `i` (`s`),
/// given whether its process still runs.
pub open spec fn step_for(cmd: CommandView, s: ServiceView, i: nat, alive: bool) -> Option<ActionView> {
    match cmd {
        CommandView::Start(u) => if s.conf.uuid == u && s.proc is None {
            Some(ActionView::Launch(i, start_plan(s.conf)))
        } else {
            None
        },
        CommandView::Stop(u) => if s.conf.uuid == u && s.proc is Some {
            Some(ActionView::Kill(i, s.proc->0))
        } else {
            None
        },
        CommandView::Write(u, t) => if s.conf.uuid == u && s.proc is Some {
            Some(ActionView::Write(i, t))
        } else {
            None
        },
        CommandView::Scan => if spec_state(s, alive) == ServiceState::Failed {
            Some(ActionView::Restart(i, s.proc->0, start_plan(s.conf)))
        } else {
            None
        },
        CommandView::Quit => match spec_stop(s) {
            Ok(pid) => Some(ActionView::Kill(i, pid)),
            Err(e) => Some(ActionView::Report(i, e)),
        },
        _ => None,
    }
}

/// The actions of a command on the first `n` services, in list order.
pub open spec fn sweep(cmd: CommandView, services: Seq<ServiceView>, alive: Seq<bool>, n: nat) -> Seq<ActionView>
    decreases n,
{
    if n == 0 {
        Seq::empty()
    } else {
        let prev = sweep(cmd, services, alive, (n - 1) as nat);
        match step_for(cmd, services[n - 1], (n - 1) as nat, alive[n - 1]) {
            Some(a) => prev.push(a),
            None => prev,
        }
    }
}

/// The position of the first service with identifier `u` among the first `n`.
pub open spec fn first_match(services: Seq<ServiceView>, u: Seq<u8>, n: nat) -> Option<nat>
    decreases n,
{
    if n == 0 {
        None
    } else {
        match first_match(services, u, (n - 1) as nat) {
            Some(i) => Some(i),
            None => if services[n - 1].conf.uuid == u {
                Some((n - 1) as nat)
            } else {
                None
            },
        }
    }
}

/// What the service loop does for a command, given its services and whether
/// each one's process still runs:
/// - create: adopt a stopped service of the configuration, launched first if
///   the configuration asks for a start at build time;
/// - start / stop / write: act on every service with the identifier that has
///   no process / has a process;
/// - delete: remove the first service with the identifier, killing its process;
/// - scan: restart every service whose process ended;
/// - quit: stop every service (a service without a process refuses, and
///   the refusal is reported), then leave.
pub open spec fn plan_for(cmd: CommandView, services: Seq<ServiceView>, alive: Seq<bool>) -> Seq<ActionView> {
    match cmd {
        CommandView::Create(c) => seq![
            ActionView::Adopt(
                stopped_service(c),
                if c.autostart {
                    Some(start_plan(c))
                } else {
                    None
                },
            ),
        ],
        CommandView::Delete(u) => match first_match(services, u, services.len()) {
            Some(i) => seq![ActionView::Remove(i, services[i as int].proc)],
            None => Seq::empty(),
        },
        CommandView::Quit => sweep(cmd, services, alive, services.len()).push(ActionView::Exit),
        _ => sweep(cmd, services, alive, services.len()),
    }
}

/// The action of a command that goes through every service, for service `i`.
fn step_at(cmd: &InnerProtocol, s: &Service, i: usize, alive: bool) -> (r: Option<Action>)
    ensures
        match r {
            Some(a) => step_for(cmd@, s@, i as nat, alive) == Some(a@),
            None => step_for(cmd@, s@, i as nat, alive) is None,
        },
{
    match cmd {
        InnerProtocol::Start(u) => {
            if s.uuid().same(u) {
                match s.start() {
                    Ok(plan) => Some(Action::Launch(i, plan)),
                    Err(_) => None,
                }
            } else {
                None
            }
        },
        InnerProtocol::Stop(u) => {
            if s.uuid().same(u) {
                match s.stop() {
                    Ok(pid) => Some(Action::Kill(i, pid)),
                    Err(_) => None,
                }
            } else {
                None
            }
        },
        InnerProtocol::Write((u, text)) => {
            if s.uuid().same(u) {
                match s.write_stdin(text.as_str()) {
                    Ok(t) => Some(Action::Write(i, t)),
                    Err(_) => None,
                }
            } else {
                None
            }
        },
        InnerProtocol::Scan => {
            if s.state(alive) == ServiceState::Failed {
                match s.restart() {
                    Ok((pid, plan)) => Some(Action::Restart(i, pid, plan)),
                    Err(_) => None,
                }
            } else {
                None
            }
        },
        InnerProtocol::Quit => {
            match s.stop() {
                Ok(pid) => Some(Action::Kill(i, pid)),
                Err(e) => Some(Action::Report(i, e)),
            }
        },
        _ => None,
    }
}

/// Plans what the service loop does for `cmd`. `alive[i]` tells whether the
/// process of service `i` (if it has one) still runs; only a scan reads it.
pub fn plan(services: &Vec<Service>, cmd: InnerProtocol, alive: &Vec<bool>) -> (r: Vec<Action>)
    requires
        alive@.len() == services@.len(),
    ensures
        actions_view(r@) == plan_for(cmd@, services_view(services@), alive@),
{
    let ghost sv = services_view(services@);
    let ghost whole = cmd@;
    match &cmd {
        InnerProtocol::Create(conf) => {
            let service = conf.build();
            let launch = service.autostart_plan();
            let mut r: Vec<Action> = Vec::new();
            r.push(Action::Adopt(service, launch));
            assert(actions_view(r@) =~= plan_for(cmd@, sv, alive@));
            r
        },
        InnerProtocol::Delete(u) => {
            let mut r: Vec<Action> = Vec::new();
            let mut i: usize = 0;
            while i < services.len()
                invariant
                    i <= services@.len(),
                    sv == services_view(services@),
                    first_match(sv, u@, i as nat) is None,
                    r@.len() == 0,
                    whole == CommandView::Delete(u@),
                    whole == cmd@,
                decreases services@.len() - i,
            {
                if services[i].uuid().same(u) {
                    assert(sv[i as int] == services@[i as int]@);
                    let pid = match services[i].stop() {
                        Ok(pid) => Some(pid),
                        Err(_) => None,
                    };
                    r.push(Action::Remove(i, pid));
                    assert(first_match(sv, u@, (i + 1) as nat) == Some(i as nat));
                    assert(actions_view(r@) =~= seq![ActionView::Remove(i as nat, sv[i as int].proc)]);
                    proof {
                        lemma_first_match_stable(sv, u@, (i + 1) as nat, sv.len());
                    }
                    assert(whole == CommandView::Delete(u@));
                    assert(actions_view(r@) =~= plan_for(whole, sv, alive@));
                    return r;
                }
                i = i + 1;
            }
            assert(actions_view(r@) =~= Seq::<ActionView>::empty());
            r
        },
        _ => {
            let ghost c = cmd@;
            let mut r: Vec<Action> = Vec::new();
            let mut i: usize = 0;
            while i < services.len()
                invariant
                    i <= services@.len(),
                    alive@.len() == services@.len(),
                    sv == services_view(services@),
                    c == cmd@,
                    !(c is Create) && !(c is Delete),
                    actions_view(r@) == sweep(c, sv, alive@, i as nat),
                decreases services@.len() - i,
            {
                let ghost before = actions_view(r@);
                assert(sv[i as int] == services@[i as int]@);
                match step_at(&cmd, &services[i], i, alive[i]) {
                    Some(a) => {
                        r.push(a);
                        assert(actions_view(r@) =~= before.push(a@));
                    },
                    None => {},
                }
                i = i + 1;
            }
            if let InnerProtocol::Quit = cmd {
                let ghost before = actions_view(r@);
                r.push(Action::Exit);
                assert(actions_view(r@) =~= before.push(ActionView::Exit));
            }
            r
        },
    }
}

/// Once a match is found among the first `n` services, looking further finds the same one.
proof fn lemma_first_match_stable(services: Seq<ServiceView>, u: Seq<u8>, n: nat, m: nat)
    requires
        n <= m,
        first_match(services, u, n) is Some,
    ensures
        first_match(services, u, m) == first_match(services, u, n),
    decreases m - n,
{
    if n < m {
        lemma_first_match_stable(services, u, n, (m - 1) as nat);
    }
}

/// The service an action works on, if it works on one already in the list.
pub open spec fn action_index(a: ActionView) -> Option<nat> {
    match a {
        ActionView::Launch(i, _) => Some(i),
        ActionView::Kill(i, _) => Some(i),
        ActionView::Restart(i, _, _) => Some(i),
        ActionView::Write(i, _) => Some(i),
        ActionView::Remove(i, _) => Some(i),
        ActionView::Report(i, _) => Some(i),
        _ => None,
    }
}

/// An action fits the state it was planned on: it launches only services
/// without a process, by their own plan; it kills, restarts or writes to only
/// services with a process, and kills exactly that process; it restarts only
/// services whose process ended; a new service is adopted stopped; only quit
/// reports refusals, and only of services without a process; only quit
/// leaves the loop.
pub open spec fn action_respects(cmd: CommandView, services: Seq<ServiceView>, alive: Seq<bool>, a: ActionView) -> bool {
    match a {
        ActionView::Launch(i, p) => i < services.len() && services[i as int].proc is None && p
            == start_plan(services[i as int].conf),
        ActionView::Kill(i, pid) => i < services.len() && services[i as int].proc == Some(pid),
        ActionView::Restart(i, pid, p) => i < services.len() && services[i as int].proc == Some(pid)
            && !alive[i as int] && p == start_plan(services[i as int].conf),
        ActionView::Write(i, _) => i < services.len() && services[i as int].proc is Some,
        ActionView::Remove(i, pid) => i < services.len() && services[i as int].proc == pid,
        ActionView::Adopt(s, _) => s.proc is None,
        ActionView::Report(i, e) => i < services.len() && cmd is Quit && services[i as int].proc is None
            && e == ServiceError::NoProcess,
        ActionView::Exit => cmd is Quit,
    }
}

/// The identifier a command is addressed to, if it is addressed to one.
pub open spec fn command_target(cmd: CommandView) -> Option<Seq<u8>> {
    match cmd {
        CommandView::Start(u) => Some(u),
        CommandView::Stop(u) => Some(u),
        CommandView::Write(u, _) => Some(u),
        CommandView::Delete(u) => Some(u),
        _ => None,
    }
}

/// Every action of a sweep is the step of one of the first `n` services, and
/// every step that is an action is in the sweep.
proof fn lemma_sweep_members(cmd: CommandView, services: Seq<ServiceView>, alive: Seq<bool>, n: nat)
    requires
        n <= services.len(),
    ensures
        forall|k: int|
            #![trigger sweep(cmd, services, alive, n)[k]]
            0 <= k < sweep(cmd, services, alive, n).len() ==> exists|i: nat|
                i < n && #[trigger] step_for(cmd, services[i as int], i, alive[i as int]) == Some(
                    sweep(cmd, services, alive, n)[k],
                ),
        forall|i: nat|
            i < n && (#[trigger] step_for(cmd, services[i as int], i, alive[i as int])) is Some
                ==> sweep(cmd, services, alive, n).contains(
                step_for(cmd, services[i as int], i, alive[i as int])->0,
            ),
    decreases n,
{
    if n > 0 {
        let m = (n - 1) as nat;
        lemma_sweep_members(cmd, services, alive, m);
        let prev = sweep(cmd, services, alive, m);
        let cur = sweep(cmd, services, alive, n);
        assert forall|k: int| #![trigger cur[k]] 0 <= k < cur.len() implies exists|i: nat|
            i < n && #[trigger] step_for(cmd, services[i as int], i, alive[i as int]) == Some(cur[k]) by {
            if k < prev.len() {
                assert(cur[k] == prev[k]);
            } else {
                assert(step_for(cmd, services[m as int], m, alive[m as int]) == Some(cur[k]));
            }
        }
        assert forall|i: nat|
            i < n && (#[trigger] step_for(cmd, services[i as int], i, alive[i as int])) is Some implies cur.contains(
            step_for(cmd, services[i as int], i, alive[i as int])->0,
        ) by {
            let a = step_for(cmd, services[i as int], i, alive[i as int])->0;
            if i < m {
                let k = choose|k: int| 0 <= k < prev.len() && prev[k] == a;
                assert(cur[k] == a);
            } else {
                assert(cur[cur.len() - 1] == a);
            }
        }
    }
}

/// The step a command takes on a service fits that service and is addressed to it.
proof fn lemma_step_respects(cmd: CommandView, services: Seq<ServiceView>, alive: Seq<bool>, i: nat)
    requires
        i < services.len(),
        step_for(cmd, services[i as int], i, alive[i as int]) is Some,
    ensures
        action_respects(cmd, services, alive, step_for(cmd, services[i as int], i, alive[i as int])->0),
        action_index(step_for(cmd, services[i as int], i, alive[i as int])->0) == Some(i),
        command_target(cmd) matches Some(u) ==> services[i as int].conf.uuid == u,
{
}

/// Whatever the command, every planned action fits the state it was planned
/// on (see [`action_respects`]), and a command addressed to an identifier acts
/// only on services with that identifier.
pub proof fn lemma_plan_safe(cmd: CommandView, services: Seq<ServiceView>, alive: Seq<bool>)
    requires
        alive.len() == services.len(),
    ensures
        forall|k: int|
            0 <= k < plan_for(cmd, services, alive).len() ==> action_respects(
                cmd,
                services,
                alive,
                #[trigger] plan_for(cmd, services, alive)[k],
            ),
        forall|k: int|
            0 <= k < plan_for(cmd, services, alive).len() ==> (command_target(cmd) matches Some(u) ==> (
            action_index(#[trigger] plan_for(cmd, services, alive)[k]) matches Some(i) ==> services[i as int].conf.uuid == u)),
{
    let p = plan_for(cmd, services, alive);
    match cmd {
        CommandView::Create(c) => {},
        CommandView::Delete(u) => {
            lemma_first_match_found(services, u, services.len());
        },
        _ => {
            let n = services.len();
            lemma_sweep_members(cmd, services, alive, n);
            let sw = sweep(cmd, services, alive, n);
            assert forall|k: int| 0 <= k < p.len() implies action_respects(cmd, services, alive, #[trigger] p[k])
                && (command_target(cmd) matches Some(u) ==> (action_index(p[k]) matches Some(i) ==> services[i as int].conf.uuid == u)) by {
                if k < sw.len() {
                    let i = choose|i: nat| i < n && #[trigger] step_for(cmd, services[i as int], i, alive[i as int]) == Some(sw[k]);
                    lemma_step_respects(cmd, services, alive, i);
                    assert(p[k] == sw[k]);
                }
            }
        },
    }
}

/// A command that goes through every service (start, stop, write, scan, quit)
/// takes its step on every service for which it has one: for instance a start
/// launches every service with the identifier that has no process.
pub proof fn lemma_plan_complete(cmd: CommandView, services: Seq<ServiceView>, alive: Seq<bool>, i: nat)
    requires
        alive.len() == services.len(),
        !(cmd is Create),
        !(cmd is Delete),
        i < services.len(),
        step_for(cmd, services[i as int], i, alive[i as int]) is Some,
    ensures
        plan_for(cmd, services, alive).contains(step_for(cmd, services[i as int], i, alive[i as int])->0),
{
    let n = services.len();
    lemma_sweep_members(cmd, services, alive, n);
    let sw = sweep(cmd, services, alive, n);
    let a = step_for(cmd, services[i as int], i, alive[i as int])->0;
    if cmd is Quit {
        let k = choose|k: int| 0 <= k < sw.len() && sw[k] == a;
        assert(plan_for(cmd, services, alive)[k] == a);
    }
}

/// A found match is a service with the identifier.
proof fn lemma_first_match_found(services: Seq<ServiceView>, u: Seq<u8>, n: nat)
    requires
        n <= services.len(),
    ensures
        first_match(services, u, n) matches Some(i) ==> i < n && services[i as int].conf.uuid == u
            && forall|j: int| 0 <= j < i ==> services[j].conf.uuid != u,
        first_match(services, u, n) is None ==> forall|j: int| 0 <= j < n ==> services[j].conf.uuid != u,
    decreases n,
{
    if n > 0 {
        lemma_first_match_found(services, u, (n - 1) as nat);
    }
}

/// The socket daemon's configuration: the socket to bind, if not the one on
/// the command line, and the services to manage.
#[derive(Debug)]
pub struct Config {
    pub socket: Option<String>,
    pub service: Vec<ServiceConf>,
}

impl Config {
    /// An empty configuration.
    pub fn new() -> (c: Config)
        ensures
            c.socket is None,
            c.service@.len() == 0,
    {
        Config { socket: None, service: Vec::new() }
    }

    /// The socket to bind: the configured one, else `fallback`.
    pub fn socket_path(&self, fallback: &str) -> (p: String)
        ensures
            p@ == (match self.socket {
                Some(s) => s@,
                None => fallback@,
            }),
    {
        match &self.socket {
            Some(s) => s.clone(),
            None => String::from_str(fallback),
        }
    }
}

/// The per-user configuration file: under `$XDG_CONFIG_HOME` if it is set,
/// else under `$HOME/.config`, else under root's home.
pub fn xdg_config_path(xdg_config_home: Option<&str>, home: Option<&str>) -> (p: String)
    ensures
        p@ == (match xdg_config_home {
            Some(x) => x@ + "/smd/salaryman.toml"@,
            None => match home {
                Some(h) => h@ + "/.config/smd/salaryman.conf"@,
                None => "/root/.config/smd/salaryman.conf"@,
            },
        }),
{
    match xdg_config_home {
        Some(x) => String::from_str(x).concat("/smd/salaryman.toml"),
        None => match home {
            Some(h) => String::from_str(h).concat("/.config/smd/salaryman.conf"),
            None => String::from_str("/root/.config/smd/salaryman.conf"),
        },
    }
}

/// The configuration files to try, in order: the one named on the command
/// line alone, else `salaryman.conf`, the per-user file and
/// `/etc/salaryman/smd/salaryman.conf`.
pub fn config_candidates(arg: Option<&str>, xdg_config_home: Option<&str>, home: Option<&str>) -> (c: Vec<String>)
    ensures
        crate::text::strings_view(c@) == (match arg {
            Some(a) => seq![a@],
            None => seq![
                "salaryman.conf"@,
                (match xdg_config_home {
                    Some(x) => x@ + "/smd/salaryman.toml"@,
                    None => match home {
                        Some(h) => h@ + "/.config/smd/salaryman.conf"@,
                        None => "/root/.config/smd/salaryman.conf"@,
                    },
                }),
                "/etc/salaryman/smd/salaryman.conf"@,
            ],
        }),
{
    let mut c: Vec<String> = Vec::new();
    match arg {
        Some(a) => {
            c.push(String::from_str(a));
        },
        None => {
            c.push(String::from_str("salaryman.conf"));
            c.push(xdg_config_path(xdg_config_home, home));
            c.push(String::from_str("/etc/salaryman/smd/salaryman.conf"));
        },
    }
    assert(crate::text::strings_view(c@) =~= (match arg {
        Some(a) => seq![a@],
        None => seq![
            "salaryman.conf"@,
            (match xdg_config_home {
                Some(x) => x@ + "/smd/salaryman.toml"@,
                None => match home {
                    Some(h) => h@ + "/.config/smd/salaryman.conf"@,
                    None => "/root/.config/smd/salaryman.conf"@,
                },
            }),
            "/etc/salaryman/smd/salaryman.conf"@,
        ],
    }));
    c
}

/// Where the configuration is kept when no candidate loads: the file named on
/// the command line, else `salaryman.toml`.
pub fn fallback_config_path(arg: Option<&str>) -> (p: String)
    ensures
        p@ == (match arg {
            Some(a) => a@,
            None => "salaryman.toml"@,
        }),
{
    match arg {
        Some(a) => String::from_str(a),
        None => String::from_str("salaryman.toml"),
    }
}

/// The actions of a sweep work on services in list order, each on one of the
/// first `n`.
proof fn lemma_sweep_indices(cmd: CommandView, services: Seq<ServiceView>, alive: Seq<bool>, n: nat)
    requires
        n <= services.len(),
    ensures
        forall|k: int|
            0 <= k < sweep(cmd, services, alive, n).len() ==> (action_index(
                #[trigger] sweep(cmd, services, alive, n)[k],
            ) matches Some(i) && i < n),
        forall|k1: int, k2: int|
            0 <= k1 < k2 < sweep(cmd, services, alive, n).len() ==> action_index(
                #[trigger] sweep(cmd, services, alive, n)[k1],
            )->0 < action_index(#[trigger] sweep(cmd, services, alive, n)[k2])->0,
    decreases n,
{
    if n > 0 {
        let m = (n - 1) as nat;
        lemma_sweep_indices(cmd, services, alive, m);
        let prev = sweep(cmd, services, alive, m);
        let cur = sweep(cmd, services, alive, n);
        if step_for(cmd, services[m as int], m, alive[m as int]) is Some {
            lemma_step_respects(cmd, services, alive, m);
            assert forall|k: int| 0 <= k < cur.len() implies (action_index(#[trigger] cur[k]) matches Some(
                i,
            ) && i < n) by {
                if k < prev.len() {
                    assert(cur[k] == prev[k]);
                }
            }
            assert forall|k1: int, k2: int| 0 <= k1 < k2 < cur.len() implies action_index(
                #[trigger] cur[k1],
            )->0 < action_index(#[trigger] cur[k2])->0 by {
                assert(cur[k1] == prev[k1]);
                if k2 < prev.len() {
                    assert(cur[k2] == prev[k2]);
                }
            }
        }
    }
}

/// When every service has a step, the sweep is exactly the steps, one per
/// service, in list order.
proof fn lemma_sweep_total(cmd: CommandView, services: Seq<ServiceView>, alive: Seq<bool>, n: nat)
    requires
        n <= services.len(),
        forall|i: int| 0 <= i < n ==> (#[trigger] step_for(cmd, services[i], i as nat, alive[i])) is Some,
    ensures
        sweep(cmd, services, alive, n).len() == n,
        forall|i: int|
            0 <= i < n ==> #[trigger] sweep(cmd, services, alive, n)[i] == step_for(
                cmd,
                services[i],
                i as nat,
                alive[i],
            )->0,
    decreases n,
{
    if n > 0 {
        let m = (n - 1) as nat;
        lemma_sweep_total(cmd, services, alive, m);
        assert(step_for(cmd, services[m as int], m, alive[m as int]) is Some);
        let prev = sweep(cmd, services, alive, m);
        let cur = sweep(cmd, services, alive, n);
        assert forall|i: int| 0 <= i < n implies #[trigger] cur[i] == step_for(
            cmd,
            services[i],
            i as nat,
            alive[i],
        )->0 by {
            if i < m {
                assert(cur[i] == prev[i]);
            }
        }
    }
}

/// A deletion removes the service at the least position with the identifier,
/// recording its process (if any) to be killed; with no service of that
/// identifier it does nothing.
pub proof fn lemma_delete_plan(u: Seq<u8>, services: Seq<ServiceView>, alive: Seq<bool>)
    ensures
        forall|i: int|
            0 <= i < services.len() && #[trigger] services[i].conf.uuid == u && (forall|j: int|
                0 <= j < i ==> services[j].conf.uuid != u) ==> plan_for(CommandView::Delete(u), services, alive)
                == seq![ActionView::Remove(i as nat, services[i].proc)],
        (forall|j: int| 0 <= j < services.len() ==> services[j].conf.uuid != u) ==> plan_for(
            CommandView::Delete(u),
            services,
            alive,
        ) == Seq::<ActionView>::empty(),
{
    lemma_first_match_found(services, u, services.len());
    assert forall|i: int|
        0 <= i < services.len() && #[trigger] services[i].conf.uuid == u && (forall|j: int|
            0 <= j < i ==> services[j].conf.uuid != u) implies plan_for(CommandView::Delete(u), services, alive)
        == seq![ActionView::Remove(i as nat, services[i].proc)] by {
        match first_match(services, u, services.len()) {
            Some(f) => {
                if f < i {
                } else if f > i {
                    assert(services[i].conf.uuid != u);
                }
            },
            None => {},
        }
    }
}

/// A start launches, in list order, exactly the services with the identifier
/// that have no process, each by its own start plan.
pub proof fn lemma_start_plan(u: Seq<u8>, services: Seq<ServiceView>, alive: Seq<bool>)
    requires
        alive.len() == services.len(),
    ensures
        ({
            let p = plan_for(CommandView::Start(u), services, alive);
            &&& forall|k: int|
                0 <= k < p.len() ==> (#[trigger] p[k] matches ActionView::Launch(i, pl) && i < services.len()
                    && services[i as int].conf.uuid == u && services[i as int].proc is None && pl
                    == start_plan(services[i as int].conf))
            &&& forall|i: int|
                0 <= i < services.len() && #[trigger] services[i].conf.uuid == u && services[i].proc is None
                    ==> p.contains(ActionView::Launch(i as nat, start_plan(services[i].conf)))
            &&& forall|k1: int, k2: int|
                0 <= k1 < k2 < p.len() ==> action_index(#[trigger] p[k1])->0 < action_index(#[trigger] p[k2])->0
        }),
{
    let cmd = CommandView::Start(u);
    let n = services.len();
    lemma_sweep_members(cmd, services, alive, n);
    lemma_sweep_indices(cmd, services, alive, n);
    let p = plan_for(cmd, services, alive);
    assert forall|k: int| 0 <= k < p.len() implies (#[trigger] p[k] matches ActionView::Launch(i, pl) && i
        < services.len() && services[i as int].conf.uuid == u && services[i as int].proc is None && pl
        == start_plan(services[i as int].conf)) by {
        let i = choose|i: nat| i < n && #[trigger] step_for(cmd, services[i as int], i, alive[i as int]) == Some(p[k]);
    }
    assert forall|i: int| 0 <= i < services.len() && #[trigger] services[i].conf.uuid == u && services[i].proc is None
        implies p.contains(ActionView::Launch(i as nat, start_plan(services[i].conf))) by {
        assert(step_for(cmd, services[i], i as nat, alive[i]) is Some);
    }
}

/// A stop kills, in list order, exactly the processes of the services with
/// the identifier that have one.
pub proof fn lemma_stop_plan(u: Seq<u8>, services: Seq<ServiceView>, alive: Seq<bool>)
    requires
        alive.len() == services.len(),
    ensures
        ({
            let p = plan_for(CommandView::Stop(u), services, alive);
            &&& forall|k: int|
                0 <= k < p.len() ==> (#[trigger] p[k] matches ActionView::Kill(i, pid) && i < services.len()
                    && services[i as int].conf.uuid == u && services[i as int].proc == Some(pid))
            &&& forall|i: int|
                0 <= i < services.len() && #[trigger] services[i].conf.uuid == u && services[i].proc is Some
                    ==> p.contains(ActionView::Kill(i as nat, services[i].proc->0))
            &&& forall|k1: int, k2: int|
                0 <= k1 < k2 < p.len() ==> action_index(#[trigger] p[k1])->0 < action_index(#[trigger] p[k2])->0
        }),
{
    let cmd = CommandView::Stop(u);
    let n = services.len();
    lemma_sweep_members(cmd, services, alive, n);
    lemma_sweep_indices(cmd, services, alive, n);
    let p = plan_for(cmd, services, alive);
    assert forall|k: int| 0 <= k < p.len() implies (#[trigger] p[k] matches ActionView::Kill(i, pid) && i
        < services.len() && services[i as int].conf.uuid == u && services[i as int].proc == Some(pid)) by {
        let i = choose|i: nat| i < n && #[trigger] step_for(cmd, services[i as int], i, alive[i as int]) == Some(p[k]);
    }
    assert forall|i: int| 0 <= i < services.len() && #[trigger] services[i].conf.uuid == u
        && services[i].proc is Some implies p.contains(ActionView::Kill(i as nat, services[i].proc->0)) by {
        assert(step_for(cmd, services[i], i as nat, alive[i]) is Some);
    }
}

/// A write sends the text, in list order, to exactly the services with the
/// identifier that have a process.
pub proof fn lemma_write_plan(u: Seq<u8>, t: Seq<char>, services: Seq<ServiceView>, alive: Seq<bool>)
    requires
        alive.len() == services.len(),
    ensures
        ({
            let p = plan_for(CommandView::Write(u, t), services, alive);
            &&& forall|k: int|
                0 <= k < p.len() ==> (#[trigger] p[k] matches ActionView::Write(i, text) && i < services.len()
                    && services[i as int].conf.uuid == u && services[i as int].proc is Some && text == t)
            &&& forall|i: int|
                0 <= i < services.len() && #[trigger] services[i].conf.uuid == u && services[i].proc is Some
                    ==> p.contains(ActionView::Write(i as nat, t))
            &&& forall|k1: int, k2: int|
                0 <= k1 < k2 < p.len() ==> action_index(#[trigger] p[k1])->0 < action_index(#[trigger] p[k2])->0
        }),
{
    let cmd = CommandView::Write(u, t);
    let n = services.len();
    lemma_sweep_members(cmd, services, alive, n);
    lemma_sweep_indices(cmd, services, alive, n);
    let p = plan_for(cmd, services, alive);
    assert forall|k: int| 0 <= k < p.len() implies (#[trigger] p[k] matches ActionView::Write(i, text) && i
        < services.len() && services[i as int].conf.uuid == u && services[i as int].proc is Some && text == t) by {
        let i = choose|i: nat| i < n && #[trigger] step_for(cmd, services[i as int], i, alive[i as int]) == Some(p[k]);
    }
    assert forall|i: int| 0 <= i < services.len() && #[trigger] services[i].conf.uuid == u && services[i].proc is Some
        implies p.contains(ActionView::Write(i as nat, t)) by {
        assert(step_for(cmd, services[i], i as nat, alive[i]) is Some);
    }
}

/// A scan restarts, in list order, exactly the services whose process ended,
/// each by its own start plan; a service without a process, or whose process
/// still runs, gets no action.
pub proof fn lemma_scan_plan(services: Seq<ServiceView>, alive: Seq<bool>)
    requires
        alive.len() == services.len(),
    ensures
        ({
            let p = plan_for(CommandView::Scan, services, alive);
            &&& forall|k: int|
                0 <= k < p.len() ==> (#[trigger] p[k] matches ActionView::Restart(i, pid, pl) && i
                    < services.len() && services[i as int].proc == Some(pid) && !alive[i as int] && pl
                    == start_plan(services[i as int].conf))
            &&& forall|i: int|
                0 <= i < services.len() && #[trigger] services[i].proc is Some && !alive[i] ==> p.contains(
                    ActionView::Restart(i as nat, services[i].proc->0, start_plan(services[i].conf)),
                )
            &&& forall|k1: int, k2: int|
                0 <= k1 < k2 < p.len() ==> action_index(#[trigger] p[k1])->0 < action_index(#[trigger] p[k2])->0
        }),
{
    let cmd = CommandView::Scan;
    let n = services.len();
    lemma_sweep_members(cmd, services, alive, n);
    lemma_sweep_indices(cmd, services, alive, n);
    let p = plan_for(cmd, services, alive);
    assert forall|k: int| 0 <= k < p.len() implies (#[trigger] p[k] matches ActionView::Restart(i, pid, pl) && i
        < services.len() && services[i as int].proc == Some(pid) && !alive[i as int] && pl == start_plan(
        services[i as int].conf,
    )) by {
        let i = choose|i: nat| i < n && #[trigger] step_for(cmd, services[i as int], i, alive[i as int]) == Some(p[k]);
    }
    assert forall|i: int| 0 <= i < services.len() && #[trigger] services[i].proc is Some && !alive[i]
        implies p.contains(ActionView::Restart(i as nat, services[i].proc->0, start_plan(services[i].conf))) by {
        assert(step_for(cmd, services[i], i as nat, alive[i]) is Some);
    }
}

/// A quit takes one step per service in list order (the kill of its process,
/// or, without a process, the report of the refused stop), then leaves.
pub proof fn lemma_quit_plan(services: Seq<ServiceView>, alive: Seq<bool>)
    requires
        alive.len() == services.len(),
    ensures
        plan_for(CommandView::Quit, services, alive).len() == services.len() + 1,
        forall|i: int|
            0 <= i < services.len() ==> #[trigger] plan_for(CommandView::Quit, services, alive)[i] == (
            match services[i].proc {
                Some(pid) => ActionView::Kill(i as nat, pid),
                None => ActionView::Report(i as nat, ServiceError::NoProcess),
            }),
        plan_for(CommandView::Quit, services, alive).last() == ActionView::Exit,
{
    let cmd = CommandView::Quit;
    let n = services.len();
    assert forall|i: int| 0 <= i < n implies (#[trigger] step_for(cmd, services[i], i as nat, alive[i])) is Some by {}
    lemma_sweep_total(cmd, services, alive, n);
    let sw = sweep(cmd, services, alive, n);
    let p = plan_for(cmd, services, alive);
    assert forall|i: int| 0 <= i < n implies #[trigger] p[i] == (match services[i].proc {
        Some(pid) => ActionView::Kill(i as nat, pid),
        None => ActionView::Report(i as nat, ServiceError::NoProcess),
    }) by {
        assert(p[i] == sw[i]);
    }
}

/// A creation adopts one new service of exactly the given configuration,
/// without a process and without logs, launched first exactly when the
/// configuration asks for a start at build time, by its own start plan.
pub proof fn lemma_create_plan(c: ServiceConfView, services: Seq<ServiceView>, alive: Seq<bool>)
    ensures
        plan_for(CommandView::Create(c), services, alive).len() == 1,
        plan_for(CommandView::Create(c), services, alive)[0] matches ActionView::Adopt(s, launch) && s.conf
            == c && s.proc is None && s.outpath is None && s.errpath is None && (launch is Some
            <==> c.autostart) && (launch matches Some(pl) ==> pl == start_plan(c)),
{
}

} // verus!

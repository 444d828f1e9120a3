//! Service adapters: the native commands that link, start, stop and query a
//! user service under systemd, launchd or the Windows user-service helper,
//! how their output is read, and the service metadata kept beside them.
use vstd::prelude::*;

use crate::activation_adapters::{
    conflict_outcome, escalation_outcome, find_from, find_in, plain_outcome, ActivationAdapterOutcome,
    ActivationRollbackEntry, ActivationRollbackOperation, OutcomeView, RollbackView,
};
use crate::activation_fs::{
    owner_for_plan, owner_is, owner_opt_view, plan_owner, copy_owner_opt, ActivationFilesystem,
    ActivationFsEntry, EntryView, OwnerView, owned_service_metadata,
};
use crate::activation_plan::{file_name, file_name_of};
use crate::memory_fs::MemoryActivationFs;
use crate::text::{
    chars_of, ends_with_str, has_prefix, has_suffix, is_ws, lines, lines_of, lower_seq,
    starts_with_str, str_eq, string_of, to_lower, trim, trim_chars, char_is_ws, slice_chars,
    extend_chars,
};
use crate::types::{
    opt_view, strings_view, HostPlatform, IntegrationActivationPlan, IntegrationActivationScope,
    IntegrationAdapterKind, IntegrationAppliedState, IntegrationReasonCode, NativeServiceAction,
    PlanView,
};

verus! {

/// What a native command left behind: its exit status and its output.
#[derive(Clone, Debug, PartialEq, Eq)]
pub struct NativeCommandResult {
    pub status: i32,
    pub stdout: String,
    pub stderr: String,
}

pub struct CommandResultView {
    pub status: i32,
    pub stdout: Seq<char>,
    pub stderr: Seq<char>,
}

impl View for NativeCommandResult {
    type V = CommandResultView;

    open spec fn view(&self) -> CommandResultView {
        CommandResultView { status: self.status, stdout: self.stdout@, stderr: self.stderr@ }
    }
}

impl NativeCommandResult {
    /// A command that exited with status 0.
    pub fn success(stdout: &str, stderr: &str) -> (r: Self)
        ensures
            r@ == (CommandResultView { status: 0, stdout: stdout@, stderr: stderr@ }),
    {
        NativeCommandResult { status: 0, stdout: stdout.to_owned(), stderr: stderr.to_owned() }
    }

    /// A command that exited with `status`.
    pub fn failed(status: i32, stdout: &str, stderr: &str) -> (r: Self)
        ensures
            r@ == (CommandResultView { status, stdout: stdout@, stderr: stderr@ }),
    {
        NativeCommandResult { status, stdout: stdout.to_owned(), stderr: stderr.to_owned() }
    }

    /// Whether the command exited with status 0.
    pub fn succeeded(&self) -> (r: bool)
        ensures
            r == (self.status == 0),
    {
        self.status == 0
    }
}

/// One command handed to an executor, and what it answered.
pub struct CommandRun {
    pub program: Seq<char>,
    pub args: Seq<Seq<char>>,
    pub result: CommandResultView,
}

/// Runs native commands for the service adapters. `spec_runs` records
/// every command run, with its result, in order.
pub trait ActivationCommandExecutor {
    /// The commands run so far.
    spec fn spec_runs(&self) -> Seq<CommandRun>;

    fn run(&mut self, program: &str, args: &[String]) -> (r: NativeCommandResult)
        ensures
            final(self).spec_runs() == old(self).spec_runs().push(
                CommandRun { program: program@, args: strings_view(args@), result: r@ },
            ),
    ;
}

/// Something that runs a native command and answers its exit status and
/// output, as a host does; it keeps no record.
pub trait NativeCommandRunner {
    fn run(&mut self, program: &str, args: &[String]) -> NativeCommandResult;
}

/// An executor that runs each command on `runner` and records it, with
/// what `runner` answered.
pub struct RecordingExecutor<R> {
    pub runner: R,
    pub runs: Ghost<Seq<CommandRun>>,
}

impl<R> RecordingExecutor<R> {
    /// An executor over `runner` that has run nothing yet.
    pub fn new(runner: R) -> (r: Self)
        ensures
            r.runner == runner,
            r.runs@ == Seq::<CommandRun>::empty(),
    {
        RecordingExecutor { runner, runs: Ghost(Seq::empty()) }
    }
}

impl<R: NativeCommandRunner> ActivationCommandExecutor for RecordingExecutor<R> {
    open spec fn spec_runs(&self) -> Seq<CommandRun> {
        self.runs@
    }

    fn run(&mut self, program: &str, args: &[String]) -> (r: NativeCommandResult) {
        let r = self.runner.run(program, args);
        self.runs = Ghost(
            self.runs@.push(CommandRun { program: program@, args: strings_view(args@), result: r@ }),
        );
        r
    }
}

/// The runs `runs` are `commands` in order, up to and including the first
/// that failed, which ends them.
pub open spec fn ran_until_failure(
    commands: Seq<(Seq<char>, Seq<Seq<char>>)>,
    runs: Seq<CommandRun>,
) -> bool {
    &&& runs.len() <= commands.len()
    &&& forall|i: int|
        0 <= i < runs.len() ==> (#[trigger] runs[i]).program == commands[i].0 && runs[i].args
            == commands[i].1
    &&& forall|i: int| 0 <= i < runs.len() - 1 ==> (#[trigger] runs[i]).result.status == 0
    &&& runs.len() < commands.len() ==> runs.len() > 0 && runs.last().result.status != 0
}

/// The executor ran exactly the one command `c` since it held `earlier`,
/// and `result` is its answer.
pub open spec fn ran_one(
    earlier: Seq<CommandRun>,
    now: Seq<CommandRun>,
    c: (Seq<char>, Seq<Seq<char>>),
) -> bool {
    &&& now.len() == earlier.len() + 1
    &&& now.take(earlier.len() as int) == earlier
    &&& now.last().program == c.0
    &&& now.last().args == c.1
}

proof fn lemma_runs_compose(a: Seq<CommandRun>, b: Seq<CommandRun>, c: Seq<CommandRun>)
    requires
        a.len() <= b.len() <= c.len(),
        a == b.take(a.len() as int),
        b == c.take(b.len() as int),
    ensures
        a == c.take(a.len() as int),
        runs_since(a, c).take(runs_since(a, b).len() as int) == runs_since(a, b),
        runs_since(a, c).skip(runs_since(a, b).len() as int) == runs_since(b, c),
        runs_since(a, c).len() == runs_since(a, b).len() + runs_since(b, c).len(),
{
    assert(a =~= c.take(a.len() as int));
    assert(runs_since(a, c).take(runs_since(a, b).len() as int) =~= runs_since(a, b));
    assert(runs_since(a, c).skip(runs_since(a, b).len() as int) =~= runs_since(b, c));
}

proof fn lemma_no_runs(a: Seq<CommandRun>)
    ensures
        runs_since(a, a).len() == 0,
        a == a.take(a.len() as int),
{
    assert(a =~= a.take(a.len() as int));
}

/// The runs an executor made since it held `earlier`.
pub open spec fn runs_since(earlier: Seq<CommandRun>, now: Seq<CommandRun>) -> Seq<CommandRun> {
    now.skip(earlier.len() as int)
}

/// A program and its arguments.
pub type ActivationCommand = (String, Vec<String>);

pub open spec fn command_view(c: ActivationCommand) -> (Seq<char>, Seq<Seq<char>>) {
    (c.0@, strings_view(c.1@))
}

pub open spec fn commands_view(v: Seq<ActivationCommand>) -> Seq<(Seq<char>, Seq<Seq<char>>)> {
    v.map_values(|c: ActivationCommand| command_view(c))
}

/// `program` with one argument.
fn command1(program: &str, a: &str) -> (r: ActivationCommand)
    ensures
        command_view(r) == (program@, seq![a@]),
{
    let v = vec![a.to_owned()];
    assert(strings_view(v@) =~= seq![a@]);
    (program.to_owned(), v)
}

/// `program` with two arguments.
fn command2(program: &str, a: &str, b: &str) -> (r: ActivationCommand)
    ensures
        command_view(r) == (program@, seq![a@, b@]),
{
    let v = vec![a.to_owned(), b.to_owned()];
    assert(strings_view(v@) =~= seq![a@, b@]);
    (program.to_owned(), v)
}

/// `program` with three arguments.
fn command3(program: &str, a: &str, b: &str, c: &str) -> (r: ActivationCommand)
    ensures
        command_view(r) == (program@, seq![a@, b@, c@]),
{
    let v = vec![a.to_owned(), b.to_owned(), c.to_owned()];
    assert(strings_view(v@) =~= seq![a@, b@, c@]);
    (program.to_owned(), v)
}

/// Only user services under the Windows helper need administrator rights
/// at system scope; those are never run here.
pub open spec fn admin_required(plan: PlanView) -> bool {
    plan.adapter == IntegrationAdapterKind::WindowsServiceUser && plan.scope
        == IntegrationActivationScope::System
}

/// Whether the plan needs administrator rights (see `admin_required`).
pub fn windows_admin_required(plan: &IntegrationActivationPlan) -> (r: bool)
    ensures
        r == admin_required(plan@),
{
    plan.adapter == IntegrationAdapterKind::WindowsServiceUser && plan.scope
        == IntegrationActivationScope::System
}

/// The last component of a path, when it is not empty.
pub open spec fn file_name_spec(path: Seq<char>) -> Option<Seq<char>> {
    let f = file_name_of(path);
    if f.len() > 0 {
        Some(f)
    } else {
        None
    }
}

/// The service a plan manages: the unit after `systemd-user:`, the launchd
/// label of the `.plist` file, or the name after `windows-service-user:`.
pub open spec fn service_name_spec(plan: PlanView) -> Option<Seq<char>> {
    let host = plan.host_path;
    match plan.adapter {
        IntegrationAdapterKind::SystemdUser => if has_prefix(host, "systemd-user:"@) {
            Some(host.skip(13))
        } else {
            None
        },
        IntegrationAdapterKind::LaunchdUser => match file_name_spec(host) {
            Some(n) => if has_suffix(n, ".plist"@) {
                Some(n.take(n.len() - 6))
            } else {
                None
            },
            None => None,
        },
        IntegrationAdapterKind::WindowsServiceUser => if has_prefix(host, "windows-service-user:"@) {
            Some(host.skip(21))
        } else {
            None
        },
        _ => None,
    }
}

/// The service name of a plan (see `service_name_spec`).
pub fn service_name(plan: &IntegrationActivationPlan) -> (r: Option<String>)
    ensures
        opt_view(r) == service_name_spec(plan@),
{
    let host = chars_of(plan.host_path.as_str());
    proof {
        reveal_strlit("systemd-user:");
        reveal_strlit("windows-service-user:");
        reveal_strlit(".plist");
    }
    match plan.adapter {
        IntegrationAdapterKind::SystemdUser => {
            if starts_with_str(host.as_slice(), "systemd-user:") {
                Some(string_of(slice_chars(host.as_slice(), 13, host.len()).as_slice()))
            } else {
                None
            }
        },
        IntegrationAdapterKind::LaunchdUser => {
            let name = file_name(host.as_slice());
            if name.len() > 0 && ends_with_str(name.as_slice(), ".plist") {
                Some(string_of(slice_chars(name.as_slice(), 0, name.len() - 6).as_slice()))
            } else {
                None
            }
        },
        IntegrationAdapterKind::WindowsServiceUser => {
            if starts_with_str(host.as_slice(), "windows-service-user:") {
                Some(string_of(slice_chars(host.as_slice(), 21, host.len()).as_slice()))
            } else {
                None
            }
        },
        _ => None,
    }
}

/// Where launchd finds a user agent: `gui/current/<label>`.
pub open spec fn launchd_target(name: Seq<char>) -> Seq<char> {
    "gui/current/"@ + name
}

fn launchd_target_of(name: &str) -> (r: String)
    ensures
        r@ == launchd_target(name@),
{
    let mut c = chars_of("gui/current/");
    crate::text::extend_str(&mut c, name);
    string_of(c.as_slice())
}

/// The commands that link, enable and start a service.
pub open spec fn apply_commands_spec(plan: PlanView) -> Option<Seq<(Seq<char>, Seq<Seq<char>>)>> {
    match service_name_spec(plan) {
        None => None,
        Some(n) => match plan.adapter {
            IntegrationAdapterKind::SystemdUser => Some(
                seq![
                    ("systemctl"@, seq!["--user"@, "link"@, plan.source_path]),
                    ("systemctl"@, seq!["--user"@, "daemon-reload"@]),
                    ("systemctl"@, seq!["--user"@, "enable"@, n]),
                    ("systemctl"@, seq!["--user"@, "start"@, n]),
                ],
            ),
            IntegrationAdapterKind::LaunchdUser => Some(
                seq![
                    ("launchctl"@, seq!["bootstrap"@, "gui/current"@, plan.host_path]),
                    ("launchctl"@, seq!["enable"@, launchd_target(n)]),
                    ("launchctl"@, seq!["kickstart"@, "-k"@, launchd_target(n)]),
                ],
            ),
            IntegrationAdapterKind::WindowsServiceUser => Some(
                seq![
                    ("crosspack-service-user"@, seq!["install"@, n, plan.source_path]),
                    ("crosspack-service-user"@, seq!["enable"@, n]),
                    ("crosspack-service-user"@, seq!["start"@, n]),
                ],
            ),
            _ => None,
        },
    }
}

/// The commands that stop and disable a service before its metadata goes,
/// and those that run after.
pub open spec fn disable_commands_spec(plan: PlanView) -> Option<
    (Seq<(Seq<char>, Seq<Seq<char>>)>, Seq<(Seq<char>, Seq<Seq<char>>)>),
> {
    match service_name_spec(plan) {
        None => None,
        Some(n) => match plan.adapter {
            IntegrationAdapterKind::SystemdUser => Some(
                (
                    seq![
                        ("systemctl"@, seq!["--user"@, "stop"@, n]),
                        ("systemctl"@, seq!["--user"@, "disable"@, n]),
                        ("systemctl"@, seq!["--user"@, "reset-failed"@, n]),
                    ],
                    seq![("systemctl"@, seq!["--user"@, "daemon-reload"@])],
                ),
            ),
            IntegrationAdapterKind::LaunchdUser => Some(
                (
                    seq![
                        ("launchctl"@, seq!["bootout"@, launchd_target(n)]),
                        ("launchctl"@, seq!["disable"@, launchd_target(n)]),
                    ],
                    Seq::empty(),
                ),
            ),
            IntegrationAdapterKind::WindowsServiceUser => Some(
                (
                    seq![
                        ("crosspack-service-user"@, seq!["stop"@, n]),
                        ("crosspack-service-user"@, seq!["disable"@, n]),
                        ("crosspack-service-user"@, seq!["remove"@, n]),
                    ],
                    Seq::empty(),
                ),
            ),
            _ => None,
        },
    }
}

/// The command that reports a service's state.
pub open spec fn status_command_spec(plan: PlanView) -> Option<(Seq<char>, Seq<Seq<char>>)> {
    match service_name_spec(plan) {
        None => None,
        Some(n) => match plan.adapter {
            IntegrationAdapterKind::SystemdUser => Some(
                ("systemctl"@, seq!["--user"@, "status"@, n]),
            ),
            IntegrationAdapterKind::LaunchdUser => Some(
                ("launchctl"@, seq!["print"@, launchd_target(n)]),
            ),
            IntegrationAdapterKind::WindowsServiceUser => Some(
                ("crosspack-service-user"@, seq!["status"@, n]),
            ),
            _ => None,
        },
    }
}

/// The commands for a start, stop or restart request.
pub open spec fn action_commands_spec(plan: PlanView, action: NativeServiceAction) -> Option<
    Seq<(Seq<char>, Seq<Seq<char>>)>,
> {
    match service_name_spec(plan) {
        None => None,
        Some(n) => match (plan.adapter, action) {
            (IntegrationAdapterKind::SystemdUser, NativeServiceAction::Start) => Some(
                seq![("systemctl"@, seq!["--user"@, "start"@, n])],
            ),
            (IntegrationAdapterKind::SystemdUser, NativeServiceAction::Stop) => Some(
                seq![("systemctl"@, seq!["--user"@, "stop"@, n])],
            ),
            (IntegrationAdapterKind::SystemdUser, NativeServiceAction::Restart) => Some(
                seq![("systemctl"@, seq!["--user"@, "restart"@, n])],
            ),
            (IntegrationAdapterKind::LaunchdUser, NativeServiceAction::Start) => Some(
                seq![("launchctl"@, seq!["kickstart"@, "-k"@, launchd_target(n)])],
            ),
            (IntegrationAdapterKind::LaunchdUser, NativeServiceAction::Stop) => Some(
                seq![("launchctl"@, seq!["bootout"@, launchd_target(n)])],
            ),
            (IntegrationAdapterKind::LaunchdUser, NativeServiceAction::Restart) => Some(
                seq![("launchctl"@, seq!["kickstart"@, "-k"@, launchd_target(n)])],
            ),
            (IntegrationAdapterKind::WindowsServiceUser, NativeServiceAction::Start) => Some(
                seq![("crosspack-service-user"@, seq!["start"@, n])],
            ),
            (IntegrationAdapterKind::WindowsServiceUser, NativeServiceAction::Stop) => Some(
                seq![("crosspack-service-user"@, seq!["stop"@, n])],
            ),
            (IntegrationAdapterKind::WindowsServiceUser, NativeServiceAction::Restart) => Some(
                seq![
                    ("crosspack-service-user"@, seq!["stop"@, n]),
                    ("crosspack-service-user"@, seq!["start"@, n]),
                ],
            ),
            _ => None,
        },
    }
}

/// The word a service tool uses for an action.
pub open spec fn action_word(action: NativeServiceAction) -> Seq<char> {
    match action {
        NativeServiceAction::Start => "start"@,
        NativeServiceAction::Stop => "stop"@,
        NativeServiceAction::Restart => "restart"@,
        NativeServiceAction::Status => "status"@,
    }
}

/// A systemd user service is started, stopped and restarted by one
/// `systemctl --user` call with the action's own word and the service's
/// name; a restart is therefore never a start.
pub proof fn lemma_systemd_actions_use_their_own_word(plan: PlanView, action: NativeServiceAction)
    requires
        plan.adapter == IntegrationAdapterKind::SystemdUser,
        service_name_spec(plan) is Some,
        action != NativeServiceAction::Status,
    ensures
        action_commands_spec(plan, action) == Some(
            seq![("systemctl"@, seq!["--user"@, action_word(action), service_name_spec(plan)->0])],
        ),
        action_commands_spec(plan, NativeServiceAction::Restart) != action_commands_spec(
            plan,
            NativeServiceAction::Start,
        ),
{
    reveal_strlit("start");
    reveal_strlit("restart");
    assert("start"@.len() != "restart"@.len());
    assert(action_commands_spec(plan, NativeServiceAction::Restart)->0[0].1[1] != action_commands_spec(
        plan,
        NativeServiceAction::Start,
    )->0[0].1[1]);
}

/// Every start, stop or restart command names the plan's service as its
/// last argument, and stopping never runs what starting runs.
pub proof fn lemma_action_commands_name_the_service(plan: PlanView, action: NativeServiceAction)
    requires
        service_name_spec(plan) is Some,
        action_commands_spec(plan, action) is Some,
    ensures
        forall|i: int|
            0 <= i < action_commands_spec(plan, action)->0.len() ==> (#[trigger] action_commands_spec(
                plan,
                action,
            )->0[i]).1.last() == if plan.adapter == IntegrationAdapterKind::LaunchdUser {
                launchd_target(service_name_spec(plan)->0)
            } else {
                service_name_spec(plan)->0
            },
        action_commands_spec(plan, NativeServiceAction::Stop) != action_commands_spec(
            plan,
            NativeServiceAction::Start,
        ),
{
    reveal_strlit("start");
    reveal_strlit("stop");
    reveal_strlit("kickstart");
    reveal_strlit("bootout");
    assert("start"@.len() != "stop"@.len());
    assert("kickstart"@.len() != "bootout"@.len());
    let stop = action_commands_spec(plan, NativeServiceAction::Stop);
    let start = action_commands_spec(plan, NativeServiceAction::Start);
    if plan.adapter == IntegrationAdapterKind::SystemdUser {
        assert(stop->0[0].1[1] != start->0[0].1[1]);
    } else if plan.adapter == IntegrationAdapterKind::LaunchdUser {
        assert(stop->0[0].1[0] != start->0[0].1[0]);
    } else if plan.adapter == IntegrationAdapterKind::WindowsServiceUser {
        assert(stop->0[0].1[0] != start->0[0].1[0]);
    }
}

/// The Windows service helper has no restart: restarting a service stops it
/// and then starts it, running exactly the stop and then the start commands.
pub proof fn lemma_windows_restart_is_stop_then_start(plan: PlanView)
    requires
        plan.adapter == IntegrationAdapterKind::WindowsServiceUser,
        service_name_spec(plan) is Some,
    ensures
        action_commands_spec(plan, NativeServiceAction::Restart) == Some(
            action_commands_spec(plan, NativeServiceAction::Stop)->0 + action_commands_spec(
                plan,
                NativeServiceAction::Start,
            )->0,
        ),
{
    assert(action_commands_spec(plan, NativeServiceAction::Restart)->0 =~= action_commands_spec(
        plan,
        NativeServiceAction::Stop,
    )->0 + action_commands_spec(plan, NativeServiceAction::Start)->0);
}

/// The commands that link, enable and start the plan's service.
pub fn service_apply_commands(plan: &IntegrationActivationPlan) -> (r: Option<Vec<ActivationCommand>>)
    ensures
        match r {
            Some(v) => apply_commands_spec(plan@) == Some(commands_view(v@)),
            None => apply_commands_spec(plan@) is None,
        },
{
    let name = match service_name(plan) {
        Some(n) => n,
        None => {
            return None;
        },
    };
    let n = name.as_str();
    let source = plan.source_path.as_str();
    let v = match plan.adapter {
        IntegrationAdapterKind::SystemdUser => vec![
            command3("systemctl", "--user", "link", source),
            command2("systemctl", "--user", "daemon-reload"),
            command3("systemctl", "--user", "enable", n),
            command3("systemctl", "--user", "start", n),
        ],
        IntegrationAdapterKind::LaunchdUser => {
            let target = launchd_target_of(n);
            vec![
                command3("launchctl", "bootstrap", "gui/current", plan.host_path.as_str()),
                command2("launchctl", "enable", target.as_str()),
                command3("launchctl", "kickstart", "-k", target.as_str()),
            ]
        },
        IntegrationAdapterKind::WindowsServiceUser => vec![
            command3("crosspack-service-user", "install", n, source),
            command2("crosspack-service-user", "enable", n),
            command2("crosspack-service-user", "start", n),
        ],
        _ => {
            return None;
        },
    };
    assert(commands_view(v@) =~= apply_commands_spec(plan@)->0);
    Some(v)
}

/// The commands that stop and disable the plan's service (see
/// `disable_commands_spec`).
pub fn service_disable_commands(plan: &IntegrationActivationPlan) -> (r: Option<
    (Vec<ActivationCommand>, Vec<ActivationCommand>),
>)
    ensures
        match r {
            Some((before, after)) => disable_commands_spec(plan@) == Some(
                (commands_view(before@), commands_view(after@)),
            ),
            None => disable_commands_spec(plan@) is None,
        },
{
    let name = match service_name(plan) {
        Some(n) => n,
        None => {
            return None;
        },
    };
    let n = name.as_str();
    let (before, after) = match plan.adapter {
        IntegrationAdapterKind::SystemdUser => (
            vec![
                command3("systemctl", "--user", "stop", n),
                command3("systemctl", "--user", "disable", n),
                command3("systemctl", "--user", "reset-failed", n),
            ],
            vec![command2("systemctl", "--user", "daemon-reload")],
        ),
        IntegrationAdapterKind::LaunchdUser => {
            let target = launchd_target_of(n);
            (
                vec![
                    command2("launchctl", "bootout", target.as_str()),
                    command2("launchctl", "disable", target.as_str()),
                ],
                Vec::new(),
            )
        },
        IntegrationAdapterKind::WindowsServiceUser => (
            vec![
                command2("crosspack-service-user", "stop", n),
                command2("crosspack-service-user", "disable", n),
                command2("crosspack-service-user", "remove", n),
            ],
            Vec::new(),
        ),
        _ => {
            return None;
        },
    };
    let ghost expected = disable_commands_spec(plan@)->0;
    assert(commands_view(before@) =~= expected.0);
    assert(commands_view(after@) =~= expected.1);
    Some((before, after))
}

/// The command that reports the plan's service state.
pub fn service_status_command(plan: &IntegrationActivationPlan) -> (r: Option<ActivationCommand>)
    ensures
        match r {
            Some(c) => status_command_spec(plan@) == Some(command_view(c)),
            None => status_command_spec(plan@) is None,
        },
{
    let name = match service_name(plan) {
        Some(n) => n,
        None => {
            return None;
        },
    };
    let n = name.as_str();
    match plan.adapter {
        IntegrationAdapterKind::SystemdUser => Some(command3("systemctl", "--user", "status", n)),
        IntegrationAdapterKind::LaunchdUser => {
            let target = launchd_target_of(n);
            Some(command2("launchctl", "print", target.as_str()))
        },
        IntegrationAdapterKind::WindowsServiceUser => Some(
            command2("crosspack-service-user", "status", n),
        ),
        _ => None,
    }
}

/// The commands for a start, stop or restart request.
pub fn service_action_commands(
    plan: &IntegrationActivationPlan,
    action: NativeServiceAction,
) -> (r: Option<Vec<ActivationCommand>>)
    requires
        action != NativeServiceAction::Status,
    ensures
        match r {
            Some(v) => action_commands_spec(plan@, action) == Some(commands_view(v@)),
            None => action_commands_spec(plan@, action) is None,
        },
{
    let name = match service_name(plan) {
        Some(n) => n,
        None => {
            return None;
        },
    };
    let n = name.as_str();
    let v = match (plan.adapter, action) {
        (IntegrationAdapterKind::SystemdUser, NativeServiceAction::Start) => vec![
            command3("systemctl", "--user", "start", n),
        ],
        (IntegrationAdapterKind::SystemdUser, NativeServiceAction::Stop) => vec![
            command3("systemctl", "--user", "stop", n),
        ],
        (IntegrationAdapterKind::SystemdUser, NativeServiceAction::Restart) => vec![
            command3("systemctl", "--user", "restart", n),
        ],
        (IntegrationAdapterKind::LaunchdUser, NativeServiceAction::Stop) => {
            let target = launchd_target_of(n);
            vec![command2("launchctl", "bootout", target.as_str())]
        },
        (IntegrationAdapterKind::LaunchdUser, _) => {
            let target = launchd_target_of(n);
            vec![command3("launchctl", "kickstart", "-k", target.as_str())]
        },
        (IntegrationAdapterKind::WindowsServiceUser, NativeServiceAction::Start) => vec![
            command2("crosspack-service-user", "start", n),
        ],
        (IntegrationAdapterKind::WindowsServiceUser, NativeServiceAction::Stop) => vec![
            command2("crosspack-service-user", "stop", n),
        ],
        (IntegrationAdapterKind::WindowsServiceUser, _) => vec![
            command2("crosspack-service-user", "stop", n),
            command2("crosspack-service-user", "start", n),
        ],
        _ => {
            return None;
        },
    };
    assert(commands_view(v@) =~= action_commands_spec(plan@, action)->0);
    Some(v)
}

// ---------------------------------------------------------------------------
// reading command output

/// `pat` occurs in `s`.
pub open spec fn has_text(s: Seq<char>, pat: Seq<char>) -> bool {
    find_from(s, pat, 0) >= 0
}

fn contains_text(s: &[char], pat: &str) -> (r: bool)
    ensures
        r == has_text(s@, pat@),
{
    let p = chars_of(pat);
    find_in(s, p.as_slice()).is_some()
}

/// `w` stands in `t` as a whole whitespace-separated word at `i`.
pub open spec fn word_at(t: Seq<char>, w: Seq<char>, i: int) -> bool {
    &&& 0 <= i
    &&& i + w.len() <= t.len()
    &&& t.subrange(i, i + w.len()) == w
    &&& (i == 0 || is_ws(t[i - 1]))
    &&& (i + w.len() == t.len() || is_ws(t[i + w.len()]))
}

/// A non-empty run of characters without whitespace: what a
/// whitespace-separated word can be.
pub open spec fn is_token(w: Seq<char>) -> bool {
    w.len() > 0 && forall|i: int| 0 <= i < w.len() ==> !is_ws(#[trigger] w[i])
}

/// `w` is one of the whitespace-separated words of `t` (for a `w` that is
/// a token, see `is_token`).
pub open spec fn has_word(t: Seq<char>, w: Seq<char>) -> bool {
    exists|i: int| word_at(t, w, i)
}

fn has_word_exec(t: &[char], w: &[char]) -> (r: bool)
    requires
        w@.len() > 0,
    ensures
        r == has_word(t@, w@),
{
    let n = t.len();
    let m = w.len();
    if m > n {
        assert forall|i: int| !word_at(t@, w@, i) by {}
        return false;
    }
    let mut i: usize = 0;
    while i <= n - m
        invariant
            n == t@.len(),
            m == w@.len(),
            0 < m <= n,
            i <= n - m + 1,
            forall|j: int| 0 <= j < i ==> !word_at(t@, w@, j),
        decreases n - m + 1 - i,
    {
        let window = slice_chars(t, i, i + m);
        if crate::text::chars_eq(window.as_slice(), w) && (i == 0 || char_is_ws(t[i - 1])) && (i
            + m == n || char_is_ws(t[i + m])) {
            assert(word_at(t@, w@, i as int));
            return true;
        }
        i = i + 1;
    }
    assert forall|j: int| !word_at(t@, w@, j) by {}
    false
}

/// A line of the Windows helper's report, trimmed, starts with `state` and
/// holds `state` as a word.
pub open spec fn windows_has_state(output: Seq<char>, state: Seq<char>) -> bool {
    &&& is_token(state)
    &&& exists|k: int|
        0 <= k < lines(output).len() && has_prefix(trim(#[trigger] lines(output)[k]), "state"@)
            && has_word(trim(lines(output)[k]), state)
}

/// Whether the Windows helper reported `state` (see `windows_has_state`).
pub fn windows_status_has_state(output: &[char], state: &str) -> (r: bool)
    ensures
        r == windows_has_state(output@, state@),
{
    let st = chars_of(state);
    if st.len() == 0 {
        return false;
    }
    let mut j: usize = 0;
    while j < st.len()
        invariant
            st@ == state@,
            j <= st@.len(),
            forall|i: int| 0 <= i < j ==> !is_ws(#[trigger] st@[i]),
        decreases st@.len() - j,
    {
        if crate::text::char_is_ws(st[j]) {
            assert(!is_token(state@)) by {
                assert(is_ws(state@[j as int]));
            }
            return false;
        }
        j = j + 1;
    }
    assert(is_token(state@));
    let ls = lines_of(output);
    let n = ls.len();
    let mut i: usize = 0;
    while i < n
        invariant
            n == ls@.len(),
            n == lines(output@).len(),
            forall|k: int| 0 <= k < n ==> #[trigger] ls@[k]@ == lines(output@)[k],
            st@ == state@,
            st@.len() > 0,
            is_token(state@),
            i <= n,
            forall|k: int|
                0 <= k < i ==> !(has_prefix(trim(#[trigger] lines(output@)[k]), "state"@)
                    && has_word(trim(lines(output@)[k]), state@)),
        decreases n - i,
    {
        let t = trim_chars(ls[i].as_slice());
        if starts_with_str(t.as_slice(), "state") && has_word_exec(t.as_slice(), st.as_slice()) {
            assert(ls@[i as int]@ == lines(output@)[i as int]);
            return true;
        }
        i = i + 1;
    }
    false
}

/// The state a service's status output reports, read case-insensitively;
/// `None` when the output says nothing recognisable.
pub open spec fn service_status_spec(
    adapter: IntegrationAdapterKind,
    stdout: Seq<char>,
    stderr: Seq<char>,
) -> Option<IntegrationAppliedState> {
    let o = lower_seq(stdout + seq!['\n'] + stderr);
    match adapter {
        IntegrationAdapterKind::SystemdUser => if has_text(o, "loaded: not-found"@) || has_text(
            o,
            "could not be found"@,
        ) || has_text(o, "not-found"@) {
            Some(IntegrationAppliedState::Unsupported)
        } else if has_text(o, "active: active (running)"@) || has_text(o, "active (running)"@) {
            Some(IntegrationAppliedState::Running)
        } else if has_text(o, "active: failed"@) || has_text(o, "failed ("@) {
            Some(IntegrationAppliedState::Failed)
        } else if has_text(o, "active: inactive"@) || has_text(o, "inactive (dead)"@) {
            Some(IntegrationAppliedState::Stopped)
        } else {
            None
        },
        IntegrationAdapterKind::LaunchdUser => if has_text(o, "state = running"@) {
            Some(IntegrationAppliedState::Running)
        } else if has_text(o, "input/output error"@) {
            Some(IntegrationAppliedState::Unsupported)
        } else if has_text(o, "last exit code = 1"@) || has_text(o, "failed"@) {
            Some(IntegrationAppliedState::Failed)
        } else if has_text(o, "state = exited"@) || has_text(o, "could not find service"@) {
            Some(IntegrationAppliedState::Stopped)
        } else {
            None
        },
        IntegrationAdapterKind::WindowsServiceUser => if has_text(o, "1060"@) || has_text(
            o,
            "does not exist as an installed service"@,
        ) || has_text(o, "unsupported"@) {
            Some(IntegrationAppliedState::Unsupported)
        } else if windows_has_state(o, "stopped"@) || has_text(o, "not running"@) {
            Some(IntegrationAppliedState::Stopped)
        } else if windows_has_state(o, "running"@) {
            Some(IntegrationAppliedState::Running)
        } else if windows_has_state(o, "failed"@) || has_text(o, "state=failed"@) {
            Some(IntegrationAppliedState::Failed)
        } else if has_text(o, "state=running"@) {
            Some(IntegrationAppliedState::Running)
        } else if has_text(o, "state=stopped"@) || has_text(o, "stopped"@) {
            Some(IntegrationAppliedState::Stopped)
        } else {
            None
        },
        _ => Some(IntegrationAppliedState::Unsupported),
    }
}

/// Reads a service's status output (see `service_status_spec`).
pub fn parse_service_status(
    adapter: IntegrationAdapterKind,
    stdout: &str,
    stderr: &str,
) -> (r: Option<IntegrationAppliedState>)
    ensures
        r == service_status_spec(adapter, stdout@, stderr@),
{
    let mut joined = chars_of(stdout);
    joined.push('\n');
    crate::text::extend_str(&mut joined, stderr);
    assert(joined@ =~= stdout@ + seq!['\n'] + stderr@);
    let o = to_lower(joined.as_slice());
    let o = o.as_slice();
    proof {
        reveal_strlit("stopped");
        reveal_strlit("running");
        reveal_strlit("failed");
    }
    match adapter {
        IntegrationAdapterKind::SystemdUser => {
            if contains_text(o, "loaded: not-found") || contains_text(o, "could not be found")
                || contains_text(o, "not-found") {
                Some(IntegrationAppliedState::Unsupported)
            } else if contains_text(o, "active: active (running)") || contains_text(
                o,
                "active (running)",
            ) {
                Some(IntegrationAppliedState::Running)
            } else if contains_text(o, "active: failed") || contains_text(o, "failed (") {
                Some(IntegrationAppliedState::Failed)
            } else if contains_text(o, "active: inactive") || contains_text(o, "inactive (dead)") {
                Some(IntegrationAppliedState::Stopped)
            } else {
                None
            }
        },
        IntegrationAdapterKind::LaunchdUser => {
            if contains_text(o, "state = running") {
                Some(IntegrationAppliedState::Running)
            } else if contains_text(o, "input/output error") {
                Some(IntegrationAppliedState::Unsupported)
            } else if contains_text(o, "last exit code = 1") || contains_text(o, "failed") {
                Some(IntegrationAppliedState::Failed)
            } else if contains_text(o, "state = exited") || contains_text(
                o,
                "could not find service",
            ) {
                Some(IntegrationAppliedState::Stopped)
            } else {
                None
            }
        },
        IntegrationAdapterKind::WindowsServiceUser => {
            if contains_text(o, "1060") || contains_text(
                o,
                "does not exist as an installed service",
            ) || contains_text(o, "unsupported") {
                Some(IntegrationAppliedState::Unsupported)
            } else if windows_status_has_state(o, "stopped") || contains_text(o, "not running") {
                Some(IntegrationAppliedState::Stopped)
            } else if windows_status_has_state(o, "running") {
                Some(IntegrationAppliedState::Running)
            } else if windows_status_has_state(o, "failed") || contains_text(o, "state=failed") {
                Some(IntegrationAppliedState::Failed)
            } else if contains_text(o, "state=running") {
                Some(IntegrationAppliedState::Running)
            } else if contains_text(o, "state=stopped") || contains_text(o, "stopped") {
                Some(IntegrationAppliedState::Stopped)
            } else {
                None
            }
        },
        _ => Some(IntegrationAppliedState::Unsupported),
    }
}

/// Whether either output stream holds `needle`, case-insensitively.
pub open spec fn output_contains(r: CommandResultView, needle: Seq<char>) -> bool {
    has_text(lower_seq(r.stdout), needle) || has_text(lower_seq(r.stderr), needle)
}

pub fn command_output_contains(result: &NativeCommandResult, needle: &str) -> (r: bool)
    ensures
        r == output_contains(result@, needle@),
{
    let out = to_lower(chars_of(result.stdout.as_str()).as_slice());
    let err = to_lower(chars_of(result.stderr.as_str()).as_slice());
    contains_text(out.as_slice(), needle) || contains_text(err.as_slice(), needle)
}

/// A failed command: a missing tool (status 127, or output saying "not
/// found") leaves the integration unsupported, anything else failed.
pub open spec fn failure_outcome_spec(r: CommandResultView) -> OutcomeView {
    if r.status == 127 || output_contains(r, "not found"@) {
        plain_outcome(IntegrationReasonCode::AdapterToolMissing, IntegrationAppliedState::Unsupported)
    } else {
        plain_outcome(IntegrationReasonCode::NativeCommandFailed, IntegrationAppliedState::Failed)
    }
}

/// The outcome of a failed command (see `failure_outcome_spec`).
pub fn command_failure_outcome(result: NativeCommandResult) -> (out: ActivationAdapterOutcome)
    ensures
        out@ == failure_outcome_spec(result@),
{
    if result.status == 127 || command_output_contains(&result, "not found") {
        ActivationAdapterOutcome::service(
            IntegrationReasonCode::AdapterToolMissing,
            IntegrationAppliedState::Unsupported,
        )
    } else {
        ActivationAdapterOutcome::service(
            IntegrationReasonCode::NativeCommandFailed,
            IntegrationAppliedState::Failed,
        )
    }
}

/// What a status query reports for the command's result: the parsed state
/// with success, or the failed command's outcome.
pub open spec fn status_outcome_spec(adapter: IntegrationAdapterKind, r: CommandResultView) -> OutcomeView {
    match service_status_spec(adapter, r.stdout, r.stderr) {
        Some(state) => plain_outcome(IntegrationReasonCode::Success, state),
        None => failure_outcome_spec(r),
    }
}

/// The outcome of a status query given the command's result.
pub fn service_status_outcome(
    adapter: IntegrationAdapterKind,
    result: NativeCommandResult,
) -> (out: ActivationAdapterOutcome)
    ensures
        out@ == status_outcome_spec(adapter, result@),
{
    match parse_service_status(adapter, result.stdout.as_str(), result.stderr.as_str()) {
        Some(state) => ActivationAdapterOutcome::service(IntegrationReasonCode::Success, state),
        None => command_failure_outcome(result),
    }
}

/// What a status request reports for the command's result: an unsupported
/// state is reported as an unsupported host.
pub open spec fn action_status_outcome_spec(adapter: IntegrationAdapterKind, r: CommandResultView) -> OutcomeView {
    match service_status_spec(adapter, r.stdout, r.stderr) {
        Some(state) => if state == IntegrationAppliedState::Unsupported {
            plain_outcome(IntegrationReasonCode::UnsupportedHost, state)
        } else {
            plain_outcome(IntegrationReasonCode::Success, state)
        },
        None => failure_outcome_spec(r),
    }
}

/// The outcome of a status request given the command's result.
pub fn service_action_status_outcome(
    adapter: IntegrationAdapterKind,
    result: NativeCommandResult,
) -> (out: ActivationAdapterOutcome)
    ensures
        out@ == action_status_outcome_spec(adapter, result@),
{
    match parse_service_status(adapter, result.stdout.as_str(), result.stderr.as_str()) {
        Some(state) => {
            if state == IntegrationAppliedState::Unsupported {
                ActivationAdapterOutcome::service(IntegrationReasonCode::UnsupportedHost, state)
            } else {
                ActivationAdapterOutcome::service(IntegrationReasonCode::Success, state)
            }
        },
        None => command_failure_outcome(result),
    }
}

// ---------------------------------------------------------------------------
// running commands

/// Runs the commands in order and stops at the first that fails, returning
/// its result.
pub fn run_service_commands<E: ActivationCommandExecutor>(
    executor: &mut E,
    commands: &Vec<ActivationCommand>,
) -> (r: Result<(), NativeCommandResult>)
    ensures
        old(executor).spec_runs().len() <= final(executor).spec_runs().len(),
        old(executor).spec_runs() == final(executor).spec_runs().take(
            old(executor).spec_runs().len() as int,
        ),
        ran_until_failure(
            commands_view(commands@),
            runs_since(old(executor).spec_runs(), final(executor).spec_runs()),
        ),
        match r {
            Err(failed) => runs_since(old(executor).spec_runs(), final(executor).spec_runs()).len()
                > 0 && failed@ == runs_since(
                old(executor).spec_runs(),
                final(executor).spec_runs(),
            ).last().result && failed.status != 0,
            Ok(()) => runs_since(old(executor).spec_runs(), final(executor).spec_runs()).len()
                == commands@.len() && forall|i: int|
                0 <= i < commands@.len() ==> (#[trigger] runs_since(
                    old(executor).spec_runs(),
                    final(executor).spec_runs(),
                )[i]).result.status == 0,
        },
{
    let ghost start = executor.spec_runs();
    let ghost cv = commands_view(commands@);
    let n = commands.len();
    let mut i: usize = 0;
    assert(executor.spec_runs().skip(start.len() as int) =~= Seq::<CommandRun>::empty());
    assert(executor.spec_runs().take(start.len() as int) =~= start);
    while i < n
        invariant
            n == commands@.len(),
            cv == commands_view(commands@),
            i <= n,
            start == old(executor).spec_runs(),
            start == executor.spec_runs().take(start.len() as int),
            start.len() <= executor.spec_runs().len(),
            runs_since(start, executor.spec_runs()).len() == i,
            forall|k: int|
                0 <= k < i ==> (#[trigger] runs_since(start, executor.spec_runs())[k]).program
                    == cv[k].0 && runs_since(start, executor.spec_runs())[k].args == cv[k].1
                    && runs_since(start, executor.spec_runs())[k].result.status == 0,
        decreases n - i,
    {
        let ghost prev = executor.spec_runs();
        let result = executor.run(commands[i].0.as_str(), commands[i].1.as_slice());
        proof {
            let now = executor.spec_runs();
            assert(now.take(start.len() as int) =~= start);
            assert(runs_since(start, now) =~= runs_since(start, prev).push(
                CommandRun {
                    program: commands@[i as int].0@,
                    args: strings_view(commands@[i as int].1@),
                    result: result@,
                },
            ));
            assert(cv[i as int] == command_view(commands@[i as int]));
        }
        if !result.succeeded() {
            proof {
                let rs = runs_since(start, executor.spec_runs());
                assert(rs.len() == i + 1);
                assert forall|k: int| 0 <= k < rs.len() implies (#[trigger] rs[k]).program == cv[k].0
                    && rs[k].args == cv[k].1 by {
                    if k < i {
                        assert(rs[k] == runs_since(start, prev)[k]);
                    }
                }
                assert forall|k: int| 0 <= k < rs.len() - 1 implies (#[trigger] rs[k]).result.status
                    == 0 by {
                    assert(rs[k] == runs_since(start, prev)[k]);
                }
            }
            return Err(result);
        }
        i = i + 1;
    }
    Ok(())
}

pub open spec fn unsupported_host_outcome() -> OutcomeView {
    plain_outcome(IntegrationReasonCode::UnsupportedHost, IntegrationAppliedState::Unsupported)
}

/// Queries the plan's service: refused at system scope for Windows user
/// services, unsupported without a status command, otherwise what the
/// status command's result reads as (see `status_outcome_spec`).
pub fn status_service_plan<E: ActivationCommandExecutor>(
    executor: &mut E,
    plan: &IntegrationActivationPlan,
) -> (out: ActivationAdapterOutcome)
    ensures
        admin_required(plan@) || status_command_spec(plan@) is None ==> final(executor).spec_runs()
            == old(executor).spec_runs(),
        admin_required(plan@) ==> out@ == escalation_outcome(),
        !admin_required(plan@) && status_command_spec(plan@) is None ==> out@
            == unsupported_host_outcome(),
        !admin_required(plan@) && status_command_spec(plan@) is Some ==> ran_one(
            old(executor).spec_runs(),
            final(executor).spec_runs(),
            status_command_spec(plan@)->0,
        ) && out@ == status_outcome_spec(plan.adapter, final(executor).spec_runs().last().result),
{
    if windows_admin_required(plan) {
        return ActivationAdapterOutcome::escalation_required();
    }
    let (program, args) = match service_status_command(plan) {
        Some(c) => c,
        None => {
            return ActivationAdapterOutcome::service(
                IntegrationReasonCode::UnsupportedHost,
                IntegrationAppliedState::Unsupported,
            );
        },
    };
    let ghost before = executor.spec_runs();
    let result = executor.run(program.as_str(), args.as_slice());
    let ghost rv = result@;
    assert(executor.spec_runs().take(before.len() as int) =~= before);
    let out = service_status_outcome(plan.adapter, result);
    assert(out@ == status_outcome_spec(plan.adapter, rv));
    out
}

/// What a start, stop or restart leaves the service in.
pub open spec fn action_state(action: NativeServiceAction) -> IntegrationAppliedState {
    if action == NativeServiceAction::Stop {
        IntegrationAppliedState::Stopped
    } else {
        IntegrationAppliedState::Running
    }
}

/// Carries out a service request: a status query reads the status
/// command's result (see `action_status_outcome_spec`); a start, stop or
/// restart runs its commands and reports the state it leaves, or the
/// outcome of the first command that failed.
pub fn run_service_action_plan<E: ActivationCommandExecutor>(
    executor: &mut E,
    plan: &IntegrationActivationPlan,
    action: NativeServiceAction,
) -> (out: ActivationAdapterOutcome)
    ensures
        action == NativeServiceAction::Status ==> if status_command_spec(plan@) is None {
            out@ == unsupported_host_outcome() && final(executor).spec_runs() == old(
                executor,
            ).spec_runs()
        } else {
            ran_one(
                old(executor).spec_runs(),
                final(executor).spec_runs(),
                status_command_spec(plan@)->0,
            ) && out@ == action_status_outcome_spec(
                plan.adapter,
                final(executor).spec_runs().last().result,
            )
        },
        action != NativeServiceAction::Status ==> if action_commands_spec(plan@, action) is None {
            out@ == unsupported_host_outcome() && final(executor).spec_runs() == old(
                executor,
            ).spec_runs()
        } else {
            let runs = runs_since(old(executor).spec_runs(), final(executor).spec_runs());
            let commands = action_commands_spec(plan@, action)->0;
            &&& old(executor).spec_runs() == final(executor).spec_runs().take(
                old(executor).spec_runs().len() as int,
            )
            &&& ran_until_failure(commands, runs)
            &&& if runs.len() == commands.len() && (runs.len() == 0 || runs.last().result.status
                == 0) {
                out@ == plain_outcome(IntegrationReasonCode::Success, action_state(action))
            } else {
                out@ == failure_outcome_spec(runs.last().result)
            }
        },
{
    if action == NativeServiceAction::Status {
        let (program, args) = match service_status_command(plan) {
            Some(c) => c,
            None => {
                return ActivationAdapterOutcome::service(
                    IntegrationReasonCode::UnsupportedHost,
                    IntegrationAppliedState::Unsupported,
                );
            },
        };
        let ghost before = executor.spec_runs();
        let result = executor.run(program.as_str(), args.as_slice());
        let ghost rv = result@;
        assert(executor.spec_runs().take(before.len() as int) =~= before);
        let out = service_action_status_outcome(plan.adapter, result);
        assert(out@ == action_status_outcome_spec(plan.adapter, rv));
        return out;
    }
    let commands = match service_action_commands(plan, action) {
        Some(c) => c,
        None => {
            return ActivationAdapterOutcome::service(
                IntegrationReasonCode::UnsupportedHost,
                IntegrationAppliedState::Unsupported,
            );
        },
    };
    match run_service_commands(executor, &commands) {
        Err(result) => {
            let ghost rv = result@;
            let out = command_failure_outcome(result);
            assert(rv.status != 0 && out@ == failure_outcome_spec(rv));
            out
        },
        Ok(()) => {
            let state = if action == NativeServiceAction::Stop {
                IntegrationAppliedState::Stopped
            } else {
                IntegrationAppliedState::Running
            };
            ActivationAdapterOutcome::service(IntegrationReasonCode::Success, state)
        },
    }
}

// ---------------------------------------------------------------------------
// service metadata

/// systemd and launchd user services keep metadata at the host path.
pub open spec fn keeps_metadata(adapter: IntegrationAdapterKind) -> bool {
    adapter == IntegrationAdapterKind::SystemdUser || adapter == IntegrationAdapterKind::LaunchdUser
}

/// Undoes metadata that a plan wrote where none stood.
pub open spec fn created_metadata_rollback(plan: PlanView, dirs: Seq<Seq<char>>) -> RollbackView {
    RollbackView {
        created_symlink_target: Some(plan.source_path),
        created_owner: Some(plan_owner(plan)),
        created_parent_dirs: dirs,
        ..crate::activation_adapters::blank_rollback(
            ActivationRollbackOperation::RemoveCreatedServiceMetadata,
            plan.host_path,
        )
    }
}

/// Undoes a plan's rewrite of its own metadata, expecting the new source.
pub open spec fn replaced_metadata_rollback(
    plan: PlanView,
    previous: Seq<char>,
    previous_owner: Option<OwnerView>,
) -> RollbackView {
    RollbackView {
        previous_symlink_target: Some(previous),
        previous_owner,
        expected_current_symlink_target: Some(plan.source_path),
        expected_current_owner: Some(plan_owner(plan)),
        ..crate::activation_adapters::blank_rollback(
            ActivationRollbackOperation::RestoreOwnedServiceMetadata,
            plan.host_path,
        )
    }
}

/// Undoes the removal of metadata, expecting the path to be empty.
pub open spec fn removed_metadata_rollback(
    plan: PlanView,
    previous: Seq<char>,
    previous_owner: Option<OwnerView>,
) -> RollbackView {
    RollbackView {
        previous_symlink_target: Some(previous),
        previous_owner,
        expected_current_absent: true,
        ..crate::activation_adapters::blank_rollback(
            ActivationRollbackOperation::RestoreOwnedServiceMetadata,
            plan.host_path,
        )
    }
}

/// Writing a service's metadata: kept when it already records the plan's
/// source, rewritten when the plan owns it, written where nothing stands
/// (launchd first creates the missing parent directories, and fails where it
/// cannot), and refused over anything else.
pub open spec fn install_metadata_post(
    before: MemoryActivationFs,
    after: MemoryActivationFs,
    plan: PlanView,
    r: Result<Seq<RollbackView>, IntegrationReasonCode>,
) -> bool {
    let host = plan.host_path;
    let owner = plan_owner(plan);
    &&& crate::activation_adapters::same_host(before, after)
    &&& crate::activation_adapters::only_dirs_added_elsewhere(before, after, host)
    &&& if !keeps_metadata(plan.adapter) {
        r == Ok::<Seq<RollbackView>, IntegrationReasonCode>(Seq::empty())
            && crate::activation_adapters::same_entries(before, after)
    } else {
        match before.spec_entry(host) {
            Some(EntryView::ServiceMetadata { source, owner: o }) => if o == Some(owner) {
                if source == plan.source_path {
                    r == Ok::<Seq<RollbackView>, IntegrationReasonCode>(Seq::empty())
                        && crate::activation_adapters::same_entries(before, after)
                } else {
                    r == Ok::<Seq<RollbackView>, IntegrationReasonCode>(
                        seq![replaced_metadata_rollback(plan, source, o)],
                    ) && crate::activation_adapters::placed_with(
                        before,
                        after,
                        host,
                        owned_service_metadata(plan.source_path, owner),
                        Seq::empty(),
                    )
                }
            } else {
                r == Err::<Seq<RollbackView>, IntegrationReasonCode>(
                    IntegrationReasonCode::HostPathConflict,
                ) && crate::activation_adapters::same_entries(before, after)
            },
            Some(_) => r == Err::<Seq<RollbackView>, IntegrationReasonCode>(
                IntegrationReasonCode::HostPathConflict,
            ) && crate::activation_adapters::same_entries(before, after),
            None => {
                let dirs = if plan.adapter == IntegrationAdapterKind::LaunchdUser {
                    crate::activation_fs::parent_dirs_spec(before, host)
                } else {
                    Some(Seq::<Seq<char>>::empty())
                };
                match dirs {
                    None => r == Err::<Seq<RollbackView>, IntegrationReasonCode>(
                        IntegrationReasonCode::HostPathConflict,
                    ) && crate::activation_adapters::same_entries(before, after),
                    Some(ds) => r == Ok::<Seq<RollbackView>, IntegrationReasonCode>(
                        seq![created_metadata_rollback(plan, ds)],
                    ) && crate::activation_adapters::placed_with(
                        before,
                        after,
                        host,
                        owned_service_metadata(plan.source_path, owner),
                        ds,
                    ),
                }
            },
        }
    }
}

fn metadata_rollback(
    operation: ActivationRollbackOperation,
    plan: &IntegrationActivationPlan,
    previous: Option<String>,
    previous_owner: Option<crate::activation_fs::ActivationOwner>,
    created: bool,
    expect_current: bool,
    absent: bool,
    dirs: Vec<String>,
) -> (r: ActivationRollbackEntry)
    ensures
        r@ == (RollbackView {
            previous_symlink_target: opt_view(previous),
            previous_owner: owner_opt_view(previous_owner),
            created_symlink_target: if created {
                Some(plan.source_path@)
            } else {
                None
            },
            created_owner: if created {
                Some(plan_owner(plan@))
            } else {
                None
            },
            expected_current_symlink_target: if expect_current {
                Some(plan.source_path@)
            } else {
                None
            },
            expected_current_owner: if expect_current {
                Some(plan_owner(plan@))
            } else {
                None
            },
            expected_current_absent: absent,
            created_parent_dirs: strings_view(dirs@),
            ..crate::activation_adapters::blank_rollback(operation, plan.host_path@)
        }),
{
    ActivationRollbackEntry {
        operation,
        path: plan.host_path.clone(),
        previous_symlink_target: previous,
        previous_shim_target: None,
        previous_owner,
        created_symlink_target: if created {
            Some(plan.source_path.clone())
        } else {
            None
        },
        created_shim_target: None,
        created_owner: if created {
            Some(owner_for_plan(plan))
        } else {
            None
        },
        expected_current_symlink_target: if expect_current {
            Some(plan.source_path.clone())
        } else {
            None
        },
        expected_current_shim_target: None,
        expected_current_owner: if expect_current {
            Some(owner_for_plan(plan))
        } else {
            None
        },
        expected_current_absent: absent,
        created_parent_dirs: dirs,
    }
}

fn one_entry(e: ActivationRollbackEntry) -> (r: Vec<ActivationRollbackEntry>)
    ensures
        crate::activation_adapters::rollback_views(r@) == seq![e@],
{
    let ghost ev = e@;
    let r = vec![e];
    assert(crate::activation_adapters::rollback_views(r@) =~= seq![ev]);
    r
}

fn no_entries() -> (r: Vec<ActivationRollbackEntry>)
    ensures
        crate::activation_adapters::rollback_views(r@) == Seq::<RollbackView>::empty(),
{
    let r: Vec<ActivationRollbackEntry> = Vec::new();
    assert(crate::activation_adapters::rollback_views(r@) =~= Seq::<RollbackView>::empty());
    r
}

pub open spec fn rollback_result_view(r: Result<Vec<ActivationRollbackEntry>, IntegrationReasonCode>) -> Result<
    Seq<RollbackView>,
    IntegrationReasonCode,
> {
    match r {
        Ok(v) => Ok(crate::activation_adapters::rollback_views(v@)),
        Err(c) => Err(c),
    }
}

/// Writes the plan's service metadata (see `install_metadata_post`).
pub fn install_service_metadata(
    fs: &mut MemoryActivationFs,
    plan: &IntegrationActivationPlan,
) -> (r: Result<Vec<ActivationRollbackEntry>, IntegrationReasonCode>)
    ensures
        install_metadata_post(*old(fs), *final(fs), plan@, rollback_result_view(r)),
{
    if !(plan.adapter == IntegrationAdapterKind::SystemdUser || plan.adapter
        == IntegrationAdapterKind::LaunchdUser) {
        return Ok(no_entries());
    }
    let host = plan.host_path.as_str();
    let expected = owner_for_plan(plan);
    let ghost before = *fs;
    match fs.entry(host) {
        Some(ActivationFsEntry::ServiceMetadata { source, owner }) => {
            if !owner_is(&owner, &expected) {
                return Err(IntegrationReasonCode::HostPathConflict);
            }
            if str_eq(source.as_str(), plan.source_path.as_str()) {
                return Ok(no_entries());
            }
            fs.put_service_metadata(
                host,
                plan.source_path.as_str(),
                plan.package_state_key.as_str(),
                plan.package.as_str(),
                plan.integration_key.as_str(),
            );
            let no_dirs: Vec<String> = Vec::new();
            assert(strings_view(no_dirs@) =~= Seq::<Seq<char>>::empty());
            let e = metadata_rollback(
                ActivationRollbackOperation::RestoreOwnedServiceMetadata,
                plan,
                Some(source),
                owner,
                false,
                true,
                false,
                no_dirs,
            );
            Ok(one_entry(e))
        },
        Some(_) => Err(IntegrationReasonCode::HostPathConflict),
        None => {
            let dirs = if plan.adapter == IntegrationAdapterKind::LaunchdUser {
                match fs.create_parent_dirs_after_preflight(host) {
                    Some(d) => d,
                    None => {
                        proof {
                            crate::activation_fs::lemma_dirs_added(before, *fs, Seq::empty());
                        }
                        return Err(IntegrationReasonCode::HostPathConflict);
                    },
                }
            } else {
                let no_dirs: Vec<String> = Vec::new();
                assert(strings_view(no_dirs@) =~= Seq::<Seq<char>>::empty());
                no_dirs
            };
            let ghost mid = *fs;
            proof {
                crate::activation_fs::lemma_dirs_added(before, mid, strings_view(dirs@));
            }
            fs.put_service_metadata(
                host,
                plan.source_path.as_str(),
                plan.package_state_key.as_str(),
                plan.package.as_str(),
                plan.integration_key.as_str(),
            );
            assert forall|p: Seq<char>| p != host@ implies crate::activation_fs::dir_added_or_same(
                before.spec_entry(p),
                #[trigger] fs.spec_entry(p),
            ) by {
                assert(crate::activation_fs::dir_added_or_same(before.spec_entry(p), mid.spec_entry(p)));
            }
            let e = metadata_rollback(
                ActivationRollbackOperation::RemoveCreatedServiceMetadata,
                plan,
                None,
                None,
                true,
                false,
                false,
                dirs,
            );
            Ok(one_entry(e))
        },
    }
}

/// Removing a service's metadata: whatever stands at the host path of a
/// systemd or launchd plan is removed, and removed metadata is recorded so
/// it can be put back.
pub open spec fn remove_metadata_post(
    before: MemoryActivationFs,
    after: MemoryActivationFs,
    plan: PlanView,
    r: Seq<RollbackView>,
) -> bool {
    let host = plan.host_path;
    &&& crate::activation_adapters::same_host(before, after)
    &&& if !keeps_metadata(plan.adapter) {
        r == Seq::<RollbackView>::empty() && crate::activation_adapters::same_entries(before, after)
    } else {
        &&& after.spec_entry(host) is None
        &&& forall|p: Seq<char>| p != host ==> #[trigger] after.spec_entry(p) == before.spec_entry(p)
        &&& r == match before.spec_entry(host) {
            Some(EntryView::ServiceMetadata { source, owner }) => seq![
                removed_metadata_rollback(plan, source, owner),
            ],
            _ => Seq::<RollbackView>::empty(),
        }
    }
}

/// Removes the plan's service metadata (see `remove_metadata_post`).
pub fn remove_service_metadata(
    fs: &mut MemoryActivationFs,
    plan: &IntegrationActivationPlan,
) -> (r: Vec<ActivationRollbackEntry>)
    ensures
        remove_metadata_post(*old(fs), *final(fs), plan@, crate::activation_adapters::rollback_views(r@)),
{
    if !(plan.adapter == IntegrationAdapterKind::SystemdUser || plan.adapter
        == IntegrationAdapterKind::LaunchdUser) {
        return no_entries();
    }
    let host = plan.host_path.as_str();
    let existing = fs.entry(host);
    let _ = fs.remove_entry(host);
    match existing {
        Some(ActivationFsEntry::ServiceMetadata { source, owner }) => {
            let no_dirs: Vec<String> = Vec::new();
            assert(strings_view(no_dirs@) =~= Seq::<Seq<char>>::empty());
            let e = metadata_rollback(
                ActivationRollbackOperation::RestoreOwnedServiceMetadata,
                plan,
                Some(source),
                owner,
                false,
                false,
                true,
                no_dirs,
            );
            one_entry(e)
        },
        _ => no_entries(),
    }
}

// ---------------------------------------------------------------------------
// applying and disabling service plans

/// The outcome `out` carries the codes of a failed command's outcome and the
/// given rollback entries.
pub open spec fn failed_with(out: OutcomeView, r: CommandResultView, rb: Seq<RollbackView>) -> bool {
    &&& r.status != 0
    &&& out.reason_code == failure_outcome_spec(r).reason_code
    &&& out.applied_state == failure_outcome_spec(r).applied_state
    &&& out.rollback == rb
}

/// Every command of `commands` was run and exited with status 0.
pub open spec fn commands_succeeded(commands: Seq<(Seq<char>, Seq<Seq<char>>)>, runs: Seq<CommandRun>) -> bool {
    &&& runs.len() == commands.len()
    &&& forall|i: int| 0 <= i < runs.len() ==> (#[trigger] runs[i]).result.status == 0
}

/// The status query of a plan: its status command run once, read as
/// `status_outcome_spec`; unsupported, with nothing run, without one.
pub open spec fn status_query_post(plan: PlanView, runs: Seq<CommandRun>, st: OutcomeView) -> bool {
    match status_command_spec(plan) {
        None => runs.len() == 0 && st == unsupported_host_outcome(),
        Some(c) => runs.len() == 1 && runs[0].program == c.0 && runs[0].args == c.1 && st
            == status_outcome_spec(plan.adapter, runs[0].result),
    }
}

/// Activating a service: refused at system scope for Windows user services;
/// otherwise its metadata is written (see `install_metadata_post`), its
/// apply commands are run in order until one fails, and the outcome is the
/// failed command's, or else the status query's, with the metadata's
/// rollback entries. `runs` are the commands the executor ran.
pub open spec fn service_apply_post(
    before: MemoryActivationFs,
    after: MemoryActivationFs,
    plan: PlanView,
    out: OutcomeView,
    runs: Seq<CommandRun>,
) -> bool {
    if admin_required(plan) {
        out == escalation_outcome() && crate::activation_adapters::same_entries(before, after)
            && runs.len() == 0
    } else {
        exists|installed: Result<Seq<RollbackView>, IntegrationReasonCode>|
            #[trigger] install_metadata_post(before, after, plan, installed) && match installed {
                Err(code) => out == plain_outcome(code, IntegrationAppliedState::Failed) && runs.len()
                    == 0,
                Ok(rb) => match apply_commands_spec(plan) {
                    None => out == unsupported_host_outcome() && runs.len() == 0,
                    Some(cmds) => exists|j: int|
                        0 <= j <= runs.len() && #[trigger] ran_until_failure(cmds, runs.take(j))
                            && if commands_succeeded(cmds, runs.take(j)) {
                            exists|st: OutcomeView|
                                #[trigger] status_query_post(plan, runs.skip(j), st) && out == (
                                OutcomeView { rollback: rb, ..st })
                        } else {
                            runs.len() == j && failed_with(out, runs.last().result, rb)
                        },
                },
            }
    }
}

/// Activates a service against the given metadata store (see
/// `service_apply_post`).
pub fn apply_service_plan_with_fs<E: ActivationCommandExecutor>(
    fs: &mut MemoryActivationFs,
    executor: &mut E,
    plan: &IntegrationActivationPlan,
) -> (out: ActivationAdapterOutcome)
    ensures
        old(executor).spec_runs() == final(executor).spec_runs().take(
            old(executor).spec_runs().len() as int,
        ),
        service_apply_post(
            *old(fs),
            *final(fs),
            plan@,
            out@,
            runs_since(old(executor).spec_runs(), final(executor).spec_runs()),
        ),
{
    let ghost start = executor.spec_runs();
    proof {
        lemma_no_runs(start);
    }
    if windows_admin_required(plan) {
        return ActivationAdapterOutcome::escalation_required();
    }
    let installed = install_service_metadata(fs, plan);
    let ghost iv = rollback_result_view(installed);
    let rollback = match installed {
        Ok(rb) => rb,
        Err(code) => {
            let out = ActivationAdapterOutcome::service(code, IntegrationAppliedState::Failed);
            assert(install_metadata_post(*old(fs), *fs, plan@, iv));
            return out;
        },
    };
    let ghost rbv = crate::activation_adapters::rollback_views(rollback@);
    let commands = match service_apply_commands(plan) {
        Some(c) => c,
        None => {
            let out = ActivationAdapterOutcome::service(
                IntegrationReasonCode::UnsupportedHost,
                IntegrationAppliedState::Unsupported,
            );
            assert(install_metadata_post(*old(fs), *fs, plan@, iv));
            return out;
        },
    };
    match run_service_commands(executor, &commands) {
        Err(result) => {
            let ghost r = result@;
            let failed = command_failure_outcome(result);
            let out = ActivationAdapterOutcome {
                reason_code: failed.reason_code,
                applied_state: failed.applied_state,
                rollback,
            };
            assert(failed_with(out@, r, rbv));
            assert(install_metadata_post(*old(fs), *fs, plan@, iv));
            proof {
                let runs = runs_since(start, executor.spec_runs());
                let j = runs.len() as int;
                assert(runs.take(j) =~= runs);
                assert(ran_until_failure(commands_view(commands@), runs.take(j)));
                assert(runs.take(j)[j - 1].result.status != 0);
                assert(!commands_succeeded(commands_view(commands@), runs.take(j)));
                let cmds = apply_commands_spec(plan@)->0;
                assert(cmds == commands_view(commands@));
                assert(runs.len() == j && failed_with(out@, runs.last().result, rbv));
                assert(exists|jj: int|
                        0 <= jj <= runs.len() && #[trigger] ran_until_failure(cmds, runs.take(jj))
                            && if commands_succeeded(cmds, runs.take(jj)) {
                            exists|st: OutcomeView|
                                #[trigger] status_query_post(plan@, runs.skip(jj), st) && out@ == (
                                OutcomeView { rollback: rbv, ..st })
                        } else {
                            runs.len() == jj && failed_with(out@, runs.last().result, rbv)
                        });
                assert(!admin_required(plan@));
                assert(service_apply_post(*old(fs), *fs, plan@, out@, runs));
            }
            out
        },
        Ok(()) => {
            let ghost mid = executor.spec_runs();
            let status = status_service_plan(executor, plan);
            proof {
                let fin = executor.spec_runs();
                if status_command_spec(plan@) is None {
                    lemma_no_runs(mid);
                    assert(fin == mid);
                } else {
                    assert(fin.take(mid.len() as int) == mid);
                }
                lemma_runs_compose(start, mid, fin);
                let runs = runs_since(start, fin);
                let j = runs_since(start, mid).len() as int;
                assert(ran_until_failure(commands_view(commands@), runs.take(j)));
                assert(commands_succeeded(commands_view(commands@), runs.take(j)));
                let rest = runs.skip(j);
                if status_command_spec(plan@) is Some {
                    assert(rest.len() == 1);
                    assert(rest[0] == fin.last());
                }
                assert(status_query_post(plan@, rest, status@));
            }
            let out = ActivationAdapterOutcome {
                reason_code: status.reason_code,
                applied_state: status.applied_state,
                rollback,
            };
            assert(out@ == (OutcomeView { rollback: rbv, ..status@ }));
            assert(install_metadata_post(*old(fs), *fs, plan@, iv));
            proof {
                let runs = runs_since(start, executor.spec_runs());
                let j = runs_since(start, mid).len() as int;
                assert(0 <= j <= runs.len());
                assert(ran_until_failure(commands_view(commands@), runs.take(j)));
                assert(status_query_post(plan@, runs.skip(j), status@));
                let cmds = apply_commands_spec(plan@)->0;
                assert(cmds == commands_view(commands@));
                assert(commands_succeeded(cmds, runs.take(j)));
                assert(exists|st: OutcomeView|
                    #[trigger] status_query_post(plan@, runs.skip(j), st) && out@ == (OutcomeView {
                        rollback: rbv,
                        ..st
                    }));
                assert(exists|jj: int|
                        0 <= jj <= runs.len() && #[trigger] ran_until_failure(cmds, runs.take(jj))
                            && if commands_succeeded(cmds, runs.take(jj)) {
                            exists|st: OutcomeView|
                                #[trigger] status_query_post(plan@, runs.skip(jj), st) && out@ == (
                                OutcomeView { rollback: rbv, ..st })
                        } else {
                            runs.len() == jj && failed_with(out@, runs.last().result, rbv)
                        });
                assert(service_apply_post(*old(fs), *fs, plan@, out@, runs));
            }
            out
        },
    }
}

/// Disabling a service: refused at system scope for Windows user services,
/// unsupported without disable commands; otherwise the stopping commands
/// run, the metadata is removed (see `remove_metadata_post`) and the
/// remaining commands run. A failed command's outcome is reported, with the
/// metadata's rollback entries once the metadata is gone.
pub open spec fn service_disable_post(
    before: MemoryActivationFs,
    after: MemoryActivationFs,
    plan: PlanView,
    out: OutcomeView,
    runs: Seq<CommandRun>,
) -> bool {
    if admin_required(plan) {
        out == escalation_outcome() && crate::activation_adapters::same_entries(before, after)
            && runs.len() == 0
    } else {
        match disable_commands_spec(plan) {
            None => out == unsupported_host_outcome() && crate::activation_adapters::same_entries(
                before,
                after,
            ) && runs.len() == 0,
            Some((pre, post)) => exists|j: int|
                0 <= j <= runs.len() && #[trigger] ran_until_failure(pre, runs.take(j)) && if !commands_succeeded(
                    pre,
                    runs.take(j),
                ) {
                    runs.len() == j && failed_with(out, runs.last().result, Seq::empty())
                        && crate::activation_adapters::same_entries(before, after)
                } else {
                    exists|rb: Seq<RollbackView>|
                        #[trigger] remove_metadata_post(before, after, plan, rb) && ran_until_failure(
                            post,
                            runs.skip(j),
                        ) && if commands_succeeded(post, runs.skip(j)) {
                            out == (OutcomeView {
                                reason_code: IntegrationReasonCode::Success,
                                applied_state: IntegrationAppliedState::Stopped,
                                rollback: rb,
                            })
                        } else {
                            failed_with(out, runs.last().result, rb)
                        }
                },
        }
    }
}

/// Disables a service against the given metadata store (see
/// `service_disable_post`).
pub fn disable_service_plan_with_fs<E: ActivationCommandExecutor>(
    fs: &mut MemoryActivationFs,
    executor: &mut E,
    plan: &IntegrationActivationPlan,
) -> (out: ActivationAdapterOutcome)
    ensures
        old(executor).spec_runs() == final(executor).spec_runs().take(
            old(executor).spec_runs().len() as int,
        ),
        service_disable_post(
            *old(fs),
            *final(fs),
            plan@,
            out@,
            runs_since(old(executor).spec_runs(), final(executor).spec_runs()),
        ),
{
    let ghost start = executor.spec_runs();
    proof {
        lemma_no_runs(start);
    }
    if windows_admin_required(plan) {
        return ActivationAdapterOutcome::escalation_required();
    }
    let (before_remove, after_remove) = match service_disable_commands(plan) {
        Some(c) => c,
        None => {
            return ActivationAdapterOutcome::service(
                IntegrationReasonCode::UnsupportedHost,
                IntegrationAppliedState::Unsupported,
            );
        },
    };
    let ghost dc = disable_commands_spec(plan@)->0;
    let ghost pre = dc.0;
    let ghost post = dc.1;
    assert(pre == commands_view(before_remove@) && post == commands_view(after_remove@));
    if let Err(result) = run_service_commands(executor, &before_remove) {
        let ghost r = result@;
        let out = command_failure_outcome(result);
        assert(failed_with(out@, r, Seq::empty()));
        proof {
            let runs = runs_since(start, executor.spec_runs());
            let j = runs.len() as int;
            assert(runs.take(j) =~= runs);
            assert(ran_until_failure(pre, runs.take(j)));
            assert(runs.take(j)[j - 1].result.status != 0);
            assert(!commands_succeeded(pre, runs.take(j)));
            assert(exists|jj: int|
                0 <= jj <= runs.len() && #[trigger] ran_until_failure(pre, runs.take(jj)) && if !commands_succeeded(
                    pre,
                    runs.take(jj),
                ) {
                    runs.len() == jj && failed_with(out@, runs.last().result, Seq::empty())
                        && crate::activation_adapters::same_entries(*old(fs), *fs)
                } else {
                    exists|rb: Seq<RollbackView>|
                        #[trigger] remove_metadata_post(*old(fs), *fs, plan@, rb) && ran_until_failure(
                            post,
                            runs.skip(jj),
                        ) && if commands_succeeded(post, runs.skip(jj)) {
                            out@ == (OutcomeView {
                                reason_code: IntegrationReasonCode::Success,
                                applied_state: IntegrationAppliedState::Stopped,
                                rollback: rb,
                            })
                        } else {
                            failed_with(out@, runs.last().result, rb)
                        }
                });
        }
        assert(!admin_required(plan@));
        assert(disable_commands_spec(plan@) == Some((pre, post)));
        assert(service_disable_post(*old(fs), *fs, plan@, out@, runs_since(start, executor.spec_runs())));
        return out;
    }
    let ghost mid = executor.spec_runs();
    let rollback = remove_service_metadata(fs, plan);
    let ghost rbv = crate::activation_adapters::rollback_views(rollback@);
    assert(remove_metadata_post(*old(fs), *fs, plan@, rbv));
    let res = run_service_commands(executor, &after_remove);
    let ghost fin = executor.spec_runs();
    proof {
        lemma_runs_compose(start, mid, fin);
    }
    let out = match res {
        Err(result) => {
            let ghost r = result@;
            let failed = command_failure_outcome(result);
            let out = ActivationAdapterOutcome {
                reason_code: failed.reason_code,
                applied_state: failed.applied_state,
                rollback,
            };
            assert(failed_with(out@, r, rbv));
            proof {
                let runs = runs_since(start, fin);
                assert(runs.last() == runs_since(mid, fin).last());
            }
            out
        },
        Ok(()) => ActivationAdapterOutcome {
            reason_code: IntegrationReasonCode::Success,
            applied_state: IntegrationAppliedState::Stopped,
            rollback,
        },
    };
    proof {
        let runs = runs_since(start, fin);
        let j = runs_since(start, mid).len() as int;
        assert(ran_until_failure(pre, runs.take(j)));
        assert(commands_succeeded(pre, runs.take(j)));
        assert(ran_until_failure(post, runs.skip(j)));
        assert(exists|rb: Seq<RollbackView>|
            #[trigger] remove_metadata_post(*old(fs), *fs, plan@, rb) && ran_until_failure(
                post,
                runs.skip(j),
            ) && if commands_succeeded(post, runs.skip(j)) {
                out@ == (OutcomeView {
                    reason_code: IntegrationReasonCode::Success,
                    applied_state: IntegrationAppliedState::Stopped,
                    rollback: rb,
                })
            } else {
                failed_with(out@, runs.last().result, rb)
            });
        assert(exists|jj: int|
            0 <= jj <= runs.len() && #[trigger] ran_until_failure(pre, runs.take(jj)) && if !commands_succeeded(
                pre,
                runs.take(jj),
            ) {
                runs.len() == jj && failed_with(out@, runs.last().result, Seq::empty())
                    && crate::activation_adapters::same_entries(*old(fs), *fs)
            } else {
                exists|rb: Seq<RollbackView>|
                    #[trigger] remove_metadata_post(*old(fs), *fs, plan@, rb) && ran_until_failure(
                        post,
                        runs.skip(jj),
                    ) && if commands_succeeded(post, runs.skip(jj)) {
                        out@ == (OutcomeView {
                            reason_code: IntegrationReasonCode::Success,
                            applied_state: IntegrationAppliedState::Stopped,
                            rollback: rb,
                        })
                    } else {
                        failed_with(out@, runs.last().result, rb)
                    }
            });
        assert(!admin_required(plan@));
        assert(disable_commands_spec(plan@) == Some((pre, post)));
        assert(service_disable_post(*old(fs), *fs, plan@, out@, runs));
    }
    out
}

/// The host a service adapter runs on.
pub open spec fn service_platform(adapter: IntegrationAdapterKind) -> HostPlatform {
    match adapter {
        IntegrationAdapterKind::LaunchdUser => HostPlatform::Macos,
        IntegrationAdapterKind::WindowsServiceUser => HostPlatform::Windows,
        _ => HostPlatform::Linux,
    }
}

pub fn platform_for_service_plan(plan: &IntegrationActivationPlan) -> (r: HostPlatform)
    ensures
        r == service_platform(plan.adapter),
{
    match plan.adapter {
        IntegrationAdapterKind::LaunchdUser => HostPlatform::Macos,
        IntegrationAdapterKind::WindowsServiceUser => HostPlatform::Windows,
        _ => HostPlatform::Linux,
    }
}

/// A metadata store as `MemoryActivationFs::new` makes it.
pub open spec fn fresh_store(fs: MemoryActivationFs, platform: HostPlatform) -> bool {
    &&& fs.spec_platform() == platform
    &&& fs.spec_symlink_supported()
    &&& forall|p: Seq<char>|
        #[trigger] fs.spec_entry(p) == if platform != HostPlatform::Windows && p == seq!['/'] {
            Some(EntryView::Directory)
        } else {
            None
        }
}

/// Activates a service with a fresh metadata store for its host.
pub fn apply_service_plan<E: ActivationCommandExecutor>(
    executor: &mut E,
    plan: &IntegrationActivationPlan,
) -> (out: ActivationAdapterOutcome)
    ensures
        old(executor).spec_runs() == final(executor).spec_runs().take(
            old(executor).spec_runs().len() as int,
        ),
        exists|before: MemoryActivationFs, after: MemoryActivationFs|
            fresh_store(before, service_platform(plan.adapter)) && #[trigger] service_apply_post(
                before,
                after,
                plan@,
                out@,
                runs_since(old(executor).spec_runs(), final(executor).spec_runs()),
            ),
{
    let mut fs = MemoryActivationFs::new(platform_for_service_plan(plan));
    let ghost before = fs;
    let out = apply_service_plan_with_fs(&mut fs, executor, plan);
    assert(fresh_store(before, service_platform(plan.adapter)) && service_apply_post(
        before,
        fs,
        plan@,
        out@,
        runs_since(old(executor).spec_runs(), executor.spec_runs()),
    ));
    out
}

/// Disables a service with a fresh metadata store for its host.
pub fn disable_service_plan<E: ActivationCommandExecutor>(
    executor: &mut E,
    plan: &IntegrationActivationPlan,
) -> (out: ActivationAdapterOutcome)
    ensures
        old(executor).spec_runs() == final(executor).spec_runs().take(
            old(executor).spec_runs().len() as int,
        ),
        exists|before: MemoryActivationFs, after: MemoryActivationFs|
            fresh_store(before, service_platform(plan.adapter)) && #[trigger] service_disable_post(
                before,
                after,
                plan@,
                out@,
                runs_since(old(executor).spec_runs(), final(executor).spec_runs()),
            ),
{
    let mut fs = MemoryActivationFs::new(platform_for_service_plan(plan));
    let ghost before = fs;
    let out = disable_service_plan_with_fs(&mut fs, executor, plan);
    assert(fresh_store(before, service_platform(plan.adapter)) && service_disable_post(
        before,
        fs,
        plan@,
        out@,
        runs_since(old(executor).spec_runs(), executor.spec_runs()),
    ));
    out
}

} // verus!

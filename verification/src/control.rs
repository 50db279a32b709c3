//! The control operations of the skhd service (start, stop, restart, reload,
//! install, uninstall) as a sequence of steps.
//!
//! The original skhd is driven through `launchctl` and its plist, `brew` and
//! `skhd --reload`; skhd.zig through its own `--start-service`, `--stop-service`,
//! `--restart-service`, `--reload`, `--install-service` and `--uninstall-service`.
//! Carrying out the steps is left to the caller: [`service_begin`] gives the first
//! action of an operation and [`service_step`] takes each event to the next
//! action, until the operation finishes with its result.
//!
//! The original skhd's plist lies under the home directory; skhd.zig is run
//! through the binary that detection found, or else the `skhd` on PATH. Before
//! installing the skhd.zig service, its configuration file is read: block-form
//! `.remap` rules may need the privileged `skhd-grabber`, whose installation the
//! user is sent to review in a terminal instead.
use vstd::prelude::*;

use crate::detect::trim_seq;
use crate::models::{ServiceState, SkhdVariant};
use crate::ast::has_block_remap;
use crate::parser::{parse_config, spec_parse_config};
use crate::paths::{
    first_existing, first_existing_config_path, plist_path_original, service_config_candidates,
    spec_service_config_candidates,
};
use crate::service::{
    law_start_refusals_name_the_variant, lemma_tagged_names_variant, msg_restart_failed, msg_still_running, names_variant,
    restart_verdict, spec_start_verdict, start_verdict, stop_verdict, tag, tagged,
};
use crate::text::{
    chars_of, contains_str, occurs_at, owned, pieces, range_is, seq_contains, skip_ws, skip_ws_in,
    split_on, trim,
};

verus! {

/// A control operation on the service.
#[derive(Debug, Clone, Copy, PartialEq, Eq, Structural)]
pub enum ServiceOp {
    Start,
    Stop,
    Restart,
    Reload,
    Install,
    Uninstall,
}

/// What an operation waits for.
#[derive(Debug, Clone, PartialEq)]
pub enum Stage {
    /// The value of `HOME`, to find the original skhd's plist.
    ReadingHome,
    /// `HOME` and `XDG_CONFIG_HOME`, to find skhd.zig's configuration before an
    /// install; holds the binary that detection found.
    ReadingConfigEnv(Option<String>),
    /// Which of the candidate configuration files exist.
    CheckingConfig(Option<String>, Vec<String>),
    /// The text of the configuration file.
    ReadingConfig(Option<String>),
    /// The outcome of `which skhd`, to find the skhd.zig binary.
    Finding,
    /// The outcome of the operation's command, run with the path found (empty
    /// for a command that needs none).
    Commanding(String),
    /// The outcome of the older `launchctl` command tried after the first failed.
    FallingBack,
    /// The end of the pause that lets the service settle.
    Settling,
    /// The status of the service.
    Checking,
    /// The result of a stop, in a restart done by hand; holds what `brew` reported.
    StoppingForRestart(String),
    /// The result of a start, in a restart done by hand.
    StartingForRestart,
    /// Nothing: the operation is over.
    Finished,
}

/// An operation in progress.
#[derive(Debug, Clone, PartialEq)]
pub struct ServiceTask {
    pub op: ServiceOp,
    pub variant: SkhdVariant,
    pub stage: Stage,
}

/// What the caller is asked to do next.
#[derive(Debug)]
pub enum ServiceAction {
    /// Read the environment variable `HOME`.
    ReadHome,
    /// Read the environment variables `HOME` and `XDG_CONFIG_HOME`.
    ReadEnv,
    /// Tell, for each of these paths, whether a file exists there.
    CheckFiles(Vec<String>),
    /// Read the text of this file.
    ReadFile(String),
    /// Run a program (the first word) with arguments (the others).
    Run(Vec<String>),
    /// Pause for so many milliseconds.
    Wait(u64),
    /// Read the status of the variant's service.
    CheckStatus,
    /// Carry out another operation on the same variant, and report its result.
    Perform(ServiceOp),
    /// The operation is over, with this result.
    Finish(Result<(), String>),
}

/// What happened.
#[derive(Debug)]
pub enum ServiceEvent {
    /// The value of `HOME`, where set.
    Home(Option<String>),
    /// The values of `HOME` and `XDG_CONFIG_HOME`, where set.
    Env { home: Option<String>, xdg_config_home: Option<String> },
    /// Whether each path asked about exists, in the same order.
    Existence(Vec<bool>),
    /// The text of the file, or `None` if it could not be read.
    FileText(Option<String>),
    /// The program could not be started, for this reason.
    CouldNotRun(String),
    /// The program ran and exited, with its outputs (decoded leniently).
    Exited { success: bool, stdout: String, stderr: String },
    /// The pause is over.
    Waited,
    /// The status read, as a state and a message, or why it could not be read.
    Status(Result<(ServiceState, Option<String>), String>),
    /// The result of the other operation.
    Performed(Result<(), String>),
}

pub enum StageModel {
    ReadingHome,
    ReadingConfigEnv(Option<Seq<char>>),
    CheckingConfig(Option<Seq<char>>, Seq<Seq<char>>),
    ReadingConfig(Option<Seq<char>>),
    Finding,
    Commanding(Seq<char>),
    FallingBack,
    Settling,
    Checking,
    StoppingForRestart(Seq<char>),
    StartingForRestart,
    Finished,
}

pub struct TaskModel {
    pub op: ServiceOp,
    pub variant: SkhdVariant,
    pub stage: StageModel,
}

pub enum ActionModel {
    ReadHome,
    ReadEnv,
    CheckFiles(Seq<Seq<char>>),
    ReadFile(Seq<char>),
    Run(Seq<Seq<char>>),
    Wait(u64),
    CheckStatus,
    Perform(ServiceOp),
    Finish(Result<(), Seq<char>>),
}

pub enum EventModel {
    Home(Option<Seq<char>>),
    Env { home: Option<Seq<char>>, xdg_config_home: Option<Seq<char>> },
    Existence(Seq<bool>),
    FileText(Option<Seq<char>>),
    CouldNotRun(Seq<char>),
    Exited { success: bool, stdout: Seq<char>, stderr: Seq<char> },
    Waited,
    Status(Result<(ServiceState, Option<Seq<char>>), Seq<char>>),
    Performed(Result<(), Seq<char>>),
}

pub open spec fn outcome_view(r: Result<(), String>) -> Result<(), Seq<char>> {
    match r {
        Ok(()) => Ok(()),
        Err(m) => Err(m@),
    }
}

impl View for Stage {
    type V = StageModel;

    open spec fn view(&self) -> StageModel {
        match self {
            Stage::ReadingHome => StageModel::ReadingHome,
            Stage::ReadingConfigEnv(d) => StageModel::ReadingConfigEnv(d.deep_view()),
            Stage::CheckingConfig(d, c) => StageModel::CheckingConfig(d.deep_view(), c.deep_view()),
            Stage::ReadingConfig(d) => StageModel::ReadingConfig(d.deep_view()),
            Stage::Finding => StageModel::Finding,
            Stage::Commanding(p) => StageModel::Commanding(p@),
            Stage::FallingBack => StageModel::FallingBack,
            Stage::Settling => StageModel::Settling,
            Stage::Checking => StageModel::Checking,
            Stage::StoppingForRestart(e) => StageModel::StoppingForRestart(e@),
            Stage::StartingForRestart => StageModel::StartingForRestart,
            Stage::Finished => StageModel::Finished,
        }
    }
}

impl View for ServiceTask {
    type V = TaskModel;

    open spec fn view(&self) -> TaskModel {
        TaskModel { op: self.op, variant: self.variant, stage: self.stage@ }
    }
}

impl View for ServiceAction {
    type V = ActionModel;

    open spec fn view(&self) -> ActionModel {
        match self {
            ServiceAction::ReadHome => ActionModel::ReadHome,
            ServiceAction::ReadEnv => ActionModel::ReadEnv,
            ServiceAction::CheckFiles(c) => ActionModel::CheckFiles(c.deep_view()),
            ServiceAction::ReadFile(p) => ActionModel::ReadFile(p@),
            ServiceAction::Run(argv) => ActionModel::Run(argv.deep_view()),
            ServiceAction::Wait(ms) => ActionModel::Wait(*ms),
            ServiceAction::CheckStatus => ActionModel::CheckStatus,
            ServiceAction::Perform(op) => ActionModel::Perform(*op),
            ServiceAction::Finish(r) => ActionModel::Finish(outcome_view(*r)),
        }
    }
}

impl View for ServiceEvent {
    type V = EventModel;

    open spec fn view(&self) -> EventModel {
        match self {
            ServiceEvent::Home(h) => EventModel::Home(h.deep_view()),
            ServiceEvent::Env { home, xdg_config_home } => EventModel::Env {
                home: home.deep_view(),
                xdg_config_home: xdg_config_home.deep_view(),
            },
            ServiceEvent::Existence(flags) => EventModel::Existence(flags@),
            ServiceEvent::FileText(t) => EventModel::FileText(t.deep_view()),
            ServiceEvent::CouldNotRun(e) => EventModel::CouldNotRun(e@),
            ServiceEvent::Exited { success, stdout, stderr } => EventModel::Exited {
                success: *success,
                stdout: stdout@,
                stderr: stderr@,
            },
            ServiceEvent::Waited => EventModel::Waited,
            ServiceEvent::Status(r) => EventModel::Status(
                match r {
                    Ok((s, m)) => Ok((*s, m.deep_view())),
                    Err(m) => Err(m@),
                },
            ),
            ServiceEvent::Performed(r) => EventModel::Performed(outcome_view(*r)),
        }
    }
}

// ------------------------------------------------------------------
// Commands and messages
// ------------------------------------------------------------------

/// The skhd flag that carries out an operation.
pub open spec fn spec_flag(op: ServiceOp) -> Seq<char> {
    match op {
        ServiceOp::Start => "--start-service"@,
        ServiceOp::Stop => "--stop-service"@,
        ServiceOp::Restart => "--restart-service"@,
        ServiceOp::Reload => "--reload"@,
        ServiceOp::Install => "--install-service"@,
        ServiceOp::Uninstall => "--uninstall-service"@,
    }
}

/// The launchd domain the original skhd's plist is loaded into, written as
/// the command line has always passed it.
pub open spec fn gui_domain() -> Seq<char> {
    "gui/$(id - u)"@
}

/// The command of an operation, given the path it acts with: the plist for
/// the original skhd's start and stop, the binary for skhd.zig.
pub open spec fn spec_command(op: ServiceOp, v: SkhdVariant, path: Seq<char>) -> Seq<Seq<char>> {
    match v {
        SkhdVariant::Original => match op {
            ServiceOp::Start => seq!["launchctl"@, "bootstrap"@, gui_domain(), path],
            ServiceOp::Stop => seq!["launchctl"@, "bootout"@, gui_domain(), path],
            ServiceOp::Restart => seq!["brew"@, "services"@, "restart"@, "skhd"@],
            _ => seq!["skhd"@, spec_flag(op)],
        },
        SkhdVariant::Zig => seq![path, spec_flag(op)],
    }
}

/// The older `launchctl` command tried when `bootstrap` or `bootout` fails.
pub open spec fn spec_fallback(op: ServiceOp, plist: Seq<char>) -> Seq<Seq<char>> {
    if op == ServiceOp::Start {
        seq!["launchctl"@, "load"@, plist]
    } else {
        seq!["launchctl"@, "unload"@, plist]
    }
}

/// Whether an operation is judged on the status read after it.
pub open spec fn checks_status(op: ServiceOp) -> bool {
    op == ServiceOp::Start || op == ServiceOp::Stop || op == ServiceOp::Restart
}

/// How long the service is given to settle before its status is read, in milliseconds.
pub open spec fn spec_wait_ms(op: ServiceOp) -> u64 {
    if op == ServiceOp::Stop {
        500
    } else {
        2000
    }
}

/// The launchd plist of the original skhd, under the home directory.
pub open spec fn spec_plist_path(home: Seq<char>) -> Seq<char> {
    home + "/Library/LaunchAgents/com.koekeishiya.skhd.plist"@
}

pub open spec fn home_missing(v: SkhdVariant) -> Seq<char> {
    tagged(
        v,
        "Failed to get HOME environment variable. This is required to locate the skhd plist file."@,
    )
}

pub open spec fn which_failure(v: SkhdVariant, reason: Seq<char>) -> Seq<char> {
    tagged(v, "Failed to find skhd in PATH: "@ + reason)
}

pub open spec fn not_on_path(v: SkhdVariant) -> Seq<char> {
    tagged(v, "skhd not found in PATH"@)
}

/// The refusal to install skhd.zig's service for a configuration with block-form
/// `.remap` rules.
pub open spec fn grabber_refusal(v: SkhdVariant) -> Seq<char> {
    tagged(v, grabber_refusal_text())
}

pub open spec fn grabber_refusal_text() -> Seq<char> {
    "The configuration has block-form .remap rules, which may need the privileged skhd-grabber. Run skhd --install-service in a terminal to review that step."@
}

pub open spec fn install_refusal() -> Seq<char> {
    tagged(
        SkhdVariant::Original,
        "Service installation is handled via the plist file. Install skhd via Homebrew and use 'brew services start skhd'."@,
    )
}

pub open spec fn uninstall_refusal() -> Seq<char> {
    tagged(
        SkhdVariant::Original,
        "Service uninstallation is handled via the plist file. Stop skhd with 'brew services stop skhd'."@,
    )
}

/// How a command is named in the message for a command that could not be started.
pub open spec fn spec_command_name(op: ServiceOp, v: SkhdVariant) -> Seq<char> {
    match (v, op) {
        (SkhdVariant::Original, ServiceOp::Start) => "launchctl bootstrap"@,
        (SkhdVariant::Original, ServiceOp::Stop) => "launchctl bootout"@,
        (SkhdVariant::Original, ServiceOp::Restart) => "brew services restart"@,
        _ => "skhd "@ + spec_flag(op),
    }
}

/// The advice in the message for a command that could not be started.
pub open spec fn spec_launch_hint(op: ServiceOp, v: SkhdVariant) -> Seq<char> {
    match (v, op) {
        (SkhdVariant::Original, ServiceOp::Start) => "Check that you have permission to control launchd services."@,
        (SkhdVariant::Original, ServiceOp::Stop) => "Check that you have permission to control launchd services."@,
        (SkhdVariant::Original, ServiceOp::Restart) => "Make sure Homebrew is installed and skhd was installed via Homebrew."@,
        (SkhdVariant::Original, _) => "Make sure skhd is installed and available in PATH."@,
        (SkhdVariant::Zig, ServiceOp::Install) => "Make sure skhd.zig is installed."@,
        (SkhdVariant::Zig, ServiceOp::Uninstall) => "Make sure skhd.zig is installed."@,
        (SkhdVariant::Zig, _) => "Make sure skhd.zig is installed and available in PATH."@,
    }
}

/// The message for a command that could not be started, for this reason.
pub open spec fn launch_failure(op: ServiceOp, v: SkhdVariant, reason: Seq<char>) -> Seq<char> {
    tagged(
        v,
        "Failed to execute "@ + spec_command_name(op, v) + ": "@ + reason + ". "@ + spec_launch_hint(
            op,
            v,
        ),
    )
}

pub open spec fn spec_verb(op: ServiceOp) -> Seq<char> {
    match op {
        ServiceOp::Start => "start"@,
        ServiceOp::Stop => "stop"@,
        ServiceOp::Restart => "restart"@,
        ServiceOp::Reload => "reload"@,
        ServiceOp::Install => "install"@,
        ServiceOp::Uninstall => "uninstall"@,
    }
}

/// The advice after the output of a command that failed.
pub open spec fn spec_exit_advice(op: ServiceOp) -> Seq<char> {
    match op {
        ServiceOp::Start => " Check that skhd.zig is installed and the service is registered."@,
        ServiceOp::Stop => " The service may not be running."@,
        ServiceOp::Reload => " The service may not be running. Try starting it first."@,
        _ => ""@,
    }
}

/// The message for a command that failed, with its trimmed standard error.
pub open spec fn exit_failure(op: ServiceOp, v: SkhdVariant, output: Seq<char>) -> Seq<char> {
    tagged(v, "Failed to "@ + spec_verb(op) + " service: "@ + output + "."@ + spec_exit_advice(op))
}

/// The judgement of a start, stop or restart on the status read after it.
pub open spec fn spec_verdict(
    op: ServiceOp,
    v: SkhdVariant,
    state: ServiceState,
    message: Option<Seq<char>>,
) -> Result<(), Seq<char>> {
    match op {
        ServiceOp::Start => spec_start_verdict(v, state, message),
        ServiceOp::Stop => if state == ServiceState::Running {
            Err(tagged(v, msg_still_running()))
        } else {
            Ok(())
        },
        _ => if state == ServiceState::Running {
            Ok(())
        } else {
            Err(tagged(v, msg_restart_failed()))
        },
    }
}

// ------------------------------------------------------------------
// The steps
// ------------------------------------------------------------------

/// Whether a task at `stage` waits for an event like `e`.
pub open spec fn spec_accepts(stage: StageModel, e: EventModel) -> bool {
    match stage {
        StageModel::ReadingHome => e is Home,
        StageModel::ReadingConfigEnv(_) => e is Env,
        StageModel::CheckingConfig(_, c) => match e {
            EventModel::Existence(flags) => flags.len() == c.len(),
            _ => false,
        },
        StageModel::ReadingConfig(_) => e is FileText,
        StageModel::Finding => e is CouldNotRun || e is Exited,
        StageModel::Commanding(_) => e is CouldNotRun || e is Exited,
        StageModel::FallingBack => e is CouldNotRun || e is Exited,
        StageModel::Settling => e is Waited,
        StageModel::Checking => e is Status,
        StageModel::StoppingForRestart(_) => e is Performed,
        StageModel::StartingForRestart => e is Performed,
        StageModel::Finished => false,
    }
}

pub open spec fn at(op: ServiceOp, v: SkhdVariant, stage: StageModel) -> TaskModel {
    TaskModel { op, variant: v, stage }
}

/// How an operation begins: the original skhd refuses to install or uninstall,
/// reads `HOME` to find its plist to start or stop, and runs `brew` or `skhd`
/// at once to restart or reload; skhd.zig runs the binary that detection found,
/// or first looks for one on PATH, and to install first reads its configuration.
pub open spec fn spec_begin(op: ServiceOp, v: SkhdVariant, detected_binary: Option<Seq<char>>) -> (
    TaskModel,
    ActionModel,
) {
    match v {
        SkhdVariant::Original => match op {
            ServiceOp::Install => (
                at(op, v, StageModel::Finished),
                ActionModel::Finish(Err(install_refusal())),
            ),
            ServiceOp::Uninstall => (
                at(op, v, StageModel::Finished),
                ActionModel::Finish(Err(uninstall_refusal())),
            ),
            ServiceOp::Start => (at(op, v, StageModel::ReadingHome), ActionModel::ReadHome),
            ServiceOp::Stop => (at(op, v, StageModel::ReadingHome), ActionModel::ReadHome),
            _ => (
                at(op, v, StageModel::Commanding(Seq::empty())),
                ActionModel::Run(spec_command(op, v, Seq::empty())),
            ),
        },
        SkhdVariant::Zig => if op == ServiceOp::Install {
            (at(op, v, StageModel::ReadingConfigEnv(detected_binary)), ActionModel::ReadEnv)
        } else {
            zig_command(op, v, detected_binary)
        },
    }
}

/// Runs skhd.zig's command with the binary that detection found, or first
/// looks for one on PATH.
pub open spec fn zig_command(op: ServiceOp, v: SkhdVariant, detected_binary: Option<Seq<char>>) -> (
    TaskModel,
    ActionModel,
) {
    match detected_binary {
        Some(b) => (at(op, v, StageModel::Commanding(b)), ActionModel::Run(spec_command(op, v, b))),
        None => (at(op, v, StageModel::Finding), ActionModel::Run(seq!["which"@, "skhd"@])),
    }
}

/// A line that opens a block-form `.remap` rule: after any blanks it begins
/// with `.remap` and a blank, and it holds a `{`.
pub open spec fn opens_block_remap(line: Seq<char>) -> bool {
    let a = skip_ws(line, 0, line.len() as int);
    &&& occurs_at(line, ".remap"@, a)
    &&& skip_ws(line, a + 6, line.len() as int) > a + 6
    &&& seq_contains(line, "{"@)
}

/// Whether a configuration text holds a block-form `.remap` rule. This is
/// decided on the text itself, whatever else it holds: some line opens such a
/// rule, or the text parses and a `.remap` directive of it opens a `{` block
/// (one that runs over several lines before its `{`).
pub open spec fn text_has_block_remap(text: Seq<char>) -> bool {
    ||| exists|i: int|
        0 <= i < pieces(text, 0, '\n').len() && #[trigger] opens_block_remap(
            pieces(text, 0, '\n')[i],
        )
    ||| spec_parse_config(text) matches Ok(ls) && has_block_remap(ls)
}

/// Where an operation goes from `t` on event `e` (one that `t` waits for).
pub open spec fn spec_step(t: TaskModel, e: EventModel) -> (TaskModel, ActionModel) {
    let op = t.op;
    let v = t.variant;
    let settle = (at(op, v, StageModel::Settling), ActionModel::Wait(spec_wait_ms(op)));
    let done = |r: Result<(), Seq<char>>| (at(op, v, StageModel::Finished), ActionModel::Finish(r));
    match t.stage {
        StageModel::ReadingConfigEnv(d) => match e {
            EventModel::Env { home: Some(h), xdg_config_home } => {
                let c = spec_service_config_candidates(v, h, xdg_config_home);
                (at(op, v, StageModel::CheckingConfig(d, c)), ActionModel::CheckFiles(c))
            },
            _ => zig_command(op, v, d),
        },
        StageModel::CheckingConfig(d, c) => match e {
            EventModel::Existence(flags) => match first_existing(c, flags) {
                Some(p) => (at(op, v, StageModel::ReadingConfig(d)), ActionModel::ReadFile(p)),
                None => zig_command(op, v, d),
            },
            _ => zig_command(op, v, d),
        },
        StageModel::ReadingConfig(d) => match e {
            EventModel::FileText(Some(text)) => if text_has_block_remap(text) {
                done(Err(grabber_refusal(v)))
            } else {
                zig_command(op, v, d)
            },
            _ => zig_command(op, v, d),
        },
        StageModel::ReadingHome => match e {
            EventModel::Home(Some(h)) => (
                at(op, v, StageModel::Commanding(spec_plist_path(h))),
                ActionModel::Run(spec_command(op, v, spec_plist_path(h))),
            ),
            _ => done(Err(home_missing(v))),
        },
        StageModel::Finding => match e {
            EventModel::Exited { success, stdout, .. } => if success && trim_seq(stdout).len() > 0 {
                (
                    at(op, v, StageModel::Commanding(trim_seq(stdout))),
                    ActionModel::Run(spec_command(op, v, trim_seq(stdout))),
                )
            } else {
                done(Err(not_on_path(v)))
            },
            EventModel::CouldNotRun(reason) => done(Err(which_failure(v, reason))),
            _ => (t, ActionModel::CheckStatus),
        },
        StageModel::Commanding(p) => match e {
            EventModel::CouldNotRun(reason) => done(Err(launch_failure(op, v, reason))),
            EventModel::Exited { success, stderr, .. } => if success {
                if checks_status(op) {
                    settle
                } else {
                    done(Ok(()))
                }
            } else if v == SkhdVariant::Original && (op == ServiceOp::Start || op
                == ServiceOp::Stop) {
                (at(op, v, StageModel::FallingBack), ActionModel::Run(spec_fallback(op, p)))
            } else if v == SkhdVariant::Original && op == ServiceOp::Restart {
                (
                    at(op, v, StageModel::StoppingForRestart(trim_seq(stderr))),
                    ActionModel::Perform(ServiceOp::Stop),
                )
            } else {
                done(Err(exit_failure(op, v, trim_seq(stderr))))
            },
            _ => (t, ActionModel::CheckStatus),
        },
        StageModel::FallingBack => settle,
        StageModel::Settling => (at(op, v, StageModel::Checking), ActionModel::CheckStatus),
        StageModel::Checking => match e {
            EventModel::Status(Ok((state, message))) => done(spec_verdict(op, v, state, message)),
            EventModel::Status(Err(m)) => done(Err(m)),
            _ => (t, ActionModel::CheckStatus),
        },
        StageModel::StoppingForRestart(output) => match e {
            EventModel::Performed(Ok(())) => (
                at(op, v, StageModel::StartingForRestart),
                ActionModel::Perform(ServiceOp::Start),
            ),
            _ => done(Err(exit_failure(ServiceOp::Restart, v, output))),
        },
        StageModel::StartingForRestart => match e {
            EventModel::Performed(r) => done(r),
            _ => (t, ActionModel::CheckStatus),
        },
        StageModel::Finished => (t, ActionModel::CheckStatus),
    }
}

// ------------------------------------------------------------------
// The executable steps
// ------------------------------------------------------------------

fn flag(op: ServiceOp) -> (r: &'static str)
    ensures
        r@ == spec_flag(op),
{
    match op {
        ServiceOp::Start => "--start-service",
        ServiceOp::Stop => "--stop-service",
        ServiceOp::Restart => "--restart-service",
        ServiceOp::Reload => "--reload",
        ServiceOp::Install => "--install-service",
        ServiceOp::Uninstall => "--uninstall-service",
    }
}

fn command(op: ServiceOp, v: SkhdVariant, path: &str) -> (r: Vec<String>)
    ensures
        r.deep_view() == spec_command(op, v, path@),
{
    let r = match v {
        SkhdVariant::Original => match op {
            ServiceOp::Start => vec![
                owned("launchctl"),
                owned("bootstrap"),
                owned("gui/$(id - u)"),
                owned(path),
            ],
            ServiceOp::Stop => vec![
                owned("launchctl"),
                owned("bootout"),
                owned("gui/$(id - u)"),
                owned(path),
            ],
            ServiceOp::Restart => vec![
                owned("brew"),
                owned("services"),
                owned("restart"),
                owned("skhd"),
            ],
            _ => vec![owned("skhd"), owned(flag(op))],
        },
        SkhdVariant::Zig => vec![owned(path), owned(flag(op))],
    };
    proof {
        assert(r.deep_view() =~= spec_command(op, v, path@));
    }
    r
}

fn fallback(op: ServiceOp, plist: &str) -> (r: Vec<String>)
    ensures
        r.deep_view() == spec_fallback(op, plist@),
{
    let word = if op == ServiceOp::Start {
        "load"
    } else {
        "unload"
    };
    let r = vec![owned("launchctl"), owned(word), owned(plist)];
    proof {
        assert(r.deep_view() =~= spec_fallback(op, plist@));
    }
    r
}

fn wait_ms(op: ServiceOp) -> (r: u64)
    ensures
        r == spec_wait_ms(op),
{
    if op == ServiceOp::Stop {
        500
    } else {
        2000
    }
}

fn command_name(op: ServiceOp, v: SkhdVariant) -> (r: String)
    ensures
        r@ == spec_command_name(op, v),
{
    match (v, op) {
        (SkhdVariant::Original, ServiceOp::Start) => owned("launchctl bootstrap"),
        (SkhdVariant::Original, ServiceOp::Stop) => owned("launchctl bootout"),
        (SkhdVariant::Original, ServiceOp::Restart) => owned("brew services restart"),
        _ => owned("skhd ").concat(flag(op)),
    }
}

fn launch_hint(op: ServiceOp, v: SkhdVariant) -> (r: &'static str)
    ensures
        r@ == spec_launch_hint(op, v),
{
    match (v, op) {
        (SkhdVariant::Original, ServiceOp::Start) => "Check that you have permission to control launchd services.",
        (SkhdVariant::Original, ServiceOp::Stop) => "Check that you have permission to control launchd services.",
        (SkhdVariant::Original, ServiceOp::Restart) => "Make sure Homebrew is installed and skhd was installed via Homebrew.",
        (SkhdVariant::Original, _) => "Make sure skhd is installed and available in PATH.",
        (SkhdVariant::Zig, ServiceOp::Install) => "Make sure skhd.zig is installed.",
        (SkhdVariant::Zig, ServiceOp::Uninstall) => "Make sure skhd.zig is installed.",
        (SkhdVariant::Zig, _) => "Make sure skhd.zig is installed and available in PATH.",
    }
}

fn launch_failure_message(op: ServiceOp, v: SkhdVariant, reason: &str) -> (r: String)
    ensures
        r@ == launch_failure(op, v, reason@),
{
    let m = owned("Failed to execute ");
    let name = command_name(op, v);
    let m = m.concat(name.as_str()).concat(": ").concat(reason).concat(". ");
    let m = m.concat(launch_hint(op, v));
    tag(v, m.as_str())
}

fn verb(op: ServiceOp) -> (r: &'static str)
    ensures
        r@ == spec_verb(op),
{
    match op {
        ServiceOp::Start => "start",
        ServiceOp::Stop => "stop",
        ServiceOp::Restart => "restart",
        ServiceOp::Reload => "reload",
        ServiceOp::Install => "install",
        ServiceOp::Uninstall => "uninstall",
    }
}

fn exit_advice(op: ServiceOp) -> (r: &'static str)
    ensures
        r@ == spec_exit_advice(op),
{
    match op {
        ServiceOp::Start => " Check that skhd.zig is installed and the service is registered.",
        ServiceOp::Stop => " The service may not be running.",
        ServiceOp::Reload => " The service may not be running. Try starting it first.",
        _ => "",
    }
}

fn exit_failure_message(op: ServiceOp, v: SkhdVariant, output: &str) -> (r: String)
    ensures
        r@ == exit_failure(op, v, output@),
{
    let m = owned("Failed to ").concat(verb(op)).concat(" service: ").concat(output);
    let m = m.concat(".").concat(exit_advice(op));
    tag(v, m.as_str())
}

fn verdict(op: ServiceOp, v: SkhdVariant, state: ServiceState, message: Option<String>) -> (r:
    Result<(), String>)
    requires
        checks_status(op),
    ensures
        outcome_view(r) == spec_verdict(op, v, state, message.deep_view()),
{
    match op {
        ServiceOp::Start => start_verdict(v, state, message),
        ServiceOp::Stop => stop_verdict(v, state),
        _ => restart_verdict(v, state),
    }
}

fn finish(op: ServiceOp, v: SkhdVariant, r: Result<(), String>) -> (out: (ServiceTask, ServiceAction))
    ensures
        out.0@ == at(op, v, StageModel::Finished),
        out.1@ == ActionModel::Finish(outcome_view(r)),
{
    (ServiceTask { op, variant: v, stage: Stage::Finished }, ServiceAction::Finish(r))
}

/// Runs operation `op` on variant `v` with the binary at `path`.
fn commanding(op: ServiceOp, v: SkhdVariant, path: String) -> (r: (ServiceTask, ServiceAction))
    ensures
        r.0@ == at(op, v, StageModel::Commanding(path@)),
        r.1@ == ActionModel::Run(spec_command(op, v, path@)),
{
    let argv = command(op, v, path.as_str());
    (ServiceTask { op, variant: v, stage: Stage::Commanding(path) }, ServiceAction::Run(argv))
}

/// The first action of operation `op` on variant `v`, given the binary that
/// detection found, if any.
pub fn service_begin(op: ServiceOp, v: SkhdVariant, detected_binary: Option<String>) -> (r: (
    ServiceTask,
    ServiceAction,
))
    ensures
        (r.0@, r.1@) == spec_begin(op, v, detected_binary.deep_view()),
{
    match v {
        SkhdVariant::Original => match op {
            ServiceOp::Install => finish(
                op,
                v,
                Err(
                    tag(
                        v,
                        "Service installation is handled via the plist file. Install skhd via Homebrew and use 'brew services start skhd'.",
                    ),
                ),
            ),
            ServiceOp::Uninstall => finish(
                op,
                v,
                Err(
                    tag(
                        v,
                        "Service uninstallation is handled via the plist file. Stop skhd with 'brew services stop skhd'.",
                    ),
                ),
            ),
            ServiceOp::Start | ServiceOp::Stop => (
                ServiceTask { op, variant: v, stage: Stage::ReadingHome },
                ServiceAction::ReadHome,
            ),
            _ => {
                let none = owned("");
                proof {
                    reveal_strlit("");
                    assert(none@ =~= Seq::<char>::empty());
                }
                commanding(op, v, none)
            },
        },
        SkhdVariant::Zig => if op == ServiceOp::Install {
            (
                ServiceTask { op, variant: v, stage: Stage::ReadingConfigEnv(detected_binary) },
                ServiceAction::ReadEnv,
            )
        } else {
            zig_commanding(op, v, detected_binary)
        },
    }
}

fn zig_commanding(op: ServiceOp, v: SkhdVariant, detected_binary: Option<String>) -> (r: (
    ServiceTask,
    ServiceAction,
))
    ensures
        (r.0@, r.1@) == zig_command(op, v, detected_binary.deep_view()),
{
    match detected_binary {
        Some(b) => commanding(op, v, b),
        None => {
            let argv = vec![owned("which"), owned("skhd")];
            proof {
                assert(argv.deep_view() =~= seq!["which"@, "skhd"@]);
            }
            (ServiceTask { op, variant: v, stage: Stage::Finding }, ServiceAction::Run(argv))
        },
    }
}

fn copy_text(o: &Option<String>) -> (r: Option<String>)
    ensures
        r.deep_view() == o.deep_view(),
{
    match o {
        Some(s) => Some(s.clone()),
        None => None,
    }
}

fn config_candidates(v: SkhdVariant, home: &str, xdg_config_home: &Option<String>) -> (r: Vec<String>)
    ensures
        r.deep_view() == spec_service_config_candidates(v, home@, xdg_config_home.deep_view()),
{
    match xdg_config_home {
        Some(x) => service_config_candidates(v, home, Some(x.as_str())),
        None => service_config_candidates(v, home, None),
    }
}

fn line_opens_block_remap(line: &str) -> (r: bool)
    ensures
        r == opens_block_remap(line@),
{
    let c = chars_of(line);
    let n = c.len();
    let a = skip_ws_in(&c, 0, n);
    proof {
        reveal_strlit(".remap");
        assert(".remap"@.len() == 6);
    }
    if n - a >= 6 && range_is(&c, a, a + 6, ".remap") {
        let b = skip_ws_in(&c, a + 6, n);
        b > a + 6 && contains_str(line, "{")
    } else {
        false
    }
}

fn blocks_install(text: &str) -> (r: bool)
    ensures
        r == text_has_block_remap(text@),
{
    let lines = split_on(text, '\n');
    let mut i: usize = 0;
    while i < lines.len()
        invariant
            i <= lines@.len(),
            lines.deep_view() == pieces(text@, 0, '\n'),
            forall|k: int| 0 <= k < i ==> !opens_block_remap(#[trigger] lines.deep_view()[k]),
        decreases lines@.len() - i,
    {
        if line_opens_block_remap(lines[i].as_str()) {
            assert(opens_block_remap(lines.deep_view()[i as int]));
            return true;
        }
        i = i + 1;
    }
    match parse_config(text) {
        Ok(c) => c.has_block_remap(),
        Err(_) => false,
    }
}

impl ServiceTask {
    /// Whether the task waits for an event like `e`.
    pub fn accepts(&self, e: &ServiceEvent) -> (r: bool)
        ensures
            r == spec_accepts(self@.stage, e@),
    {
        match &self.stage {
            Stage::ReadingHome => matches!(e, ServiceEvent::Home(_)),
            Stage::ReadingConfigEnv(_) => matches!(e, ServiceEvent::Env { .. }),
            Stage::CheckingConfig(_, c) => match e {
                ServiceEvent::Existence(flags) => flags.len() == c.len(),
                _ => false,
            },
            Stage::ReadingConfig(_) => matches!(e, ServiceEvent::FileText(_)),
            Stage::Finding | Stage::Commanding(_) | Stage::FallingBack => matches!(
                e,
                ServiceEvent::CouldNotRun(_) | ServiceEvent::Exited { .. }
            ),
            Stage::Settling => matches!(e, ServiceEvent::Waited),
            Stage::Checking => matches!(e, ServiceEvent::Status(_)),
            Stage::StoppingForRestart(_) | Stage::StartingForRestart => matches!(
                e,
                ServiceEvent::Performed(_)
            ),
            Stage::Finished => false,
        }
    }
}

/// The steps that read skhd.zig's configuration before an install.
fn config_step(t: &ServiceTask, e: &ServiceEvent) -> (r: (ServiceTask, ServiceAction))
    requires
        spec_accepts(t@.stage, e@),
        t.stage is ReadingConfigEnv || t.stage is CheckingConfig || t.stage is ReadingConfig,
    ensures
        (r.0@, r.1@) == spec_step(t@, e@),
{
    let op = t.op;
    let v = t.variant;
    match &t.stage {
        Stage::ReadingConfigEnv(d) => match e {
            ServiceEvent::Env { home: Some(h), xdg_config_home } => {
                let c = config_candidates(v, h.as_str(), xdg_config_home);
                let asked = config_candidates(v, h.as_str(), xdg_config_home);
                (
                    ServiceTask { op, variant: v, stage: Stage::CheckingConfig(copy_text(d), c) },
                    ServiceAction::CheckFiles(asked),
                )
            },
            _ => zig_commanding(op, v, copy_text(d)),
        },
        Stage::CheckingConfig(d, c) => match e {
            ServiceEvent::Existence(flags) => match first_existing_config_path(c, flags) {
                Some(p) => (
                    ServiceTask { op, variant: v, stage: Stage::ReadingConfig(copy_text(d)) },
                    ServiceAction::ReadFile(p),
                ),
                None => zig_commanding(op, v, copy_text(d)),
            },
            _ => zig_commanding(op, v, copy_text(d)),
        },
        Stage::ReadingConfig(d) => match e {
            ServiceEvent::FileText(Some(text)) => if blocks_install(text.as_str()) {
                finish(
                    op,
                    v,
                    Err(
                        tag(
                            v,
                            "The configuration has block-form .remap rules, which may need the privileged skhd-grabber. Run skhd --install-service in a terminal to review that step.",
                        ),
                    ),
                )
            } else {
                zig_commanding(op, v, copy_text(d))
            },
            _ => zig_commanding(op, v, copy_text(d)),
        },
        _ => finish(op, v, Ok(())),
    }
}

/// The next action of task `t` once event `e` happened.
pub fn service_step(t: &ServiceTask, e: &ServiceEvent) -> (r: (ServiceTask, ServiceAction))
    requires
        spec_accepts(t@.stage, e@),
    ensures
        (r.0@, r.1@) == spec_step(t@, e@),
{
    let op = t.op;
    let v = t.variant;
    match &t.stage {
        Stage::ReadingConfigEnv(_) | Stage::CheckingConfig(_, _) | Stage::ReadingConfig(_) => {
            config_step(t, e)
        },
        Stage::ReadingHome => match e {
            ServiceEvent::Home(Some(h)) => commanding(op, v, plist_path_original(h.as_str())),
            _ => finish(
                op,
                v,
                Err(
                    tag(
                        v,
                        "Failed to get HOME environment variable. This is required to locate the skhd plist file.",
                    ),
                ),
            ),
        },
        Stage::Finding => match e {
            ServiceEvent::Exited { success, stdout, .. } => {
                let path = trim(stdout.as_str());
                if *success && path.as_str().unicode_len() > 0 {
                    commanding(op, v, path)
                } else {
                    finish(op, v, Err(tag(v, "skhd not found in PATH")))
                }
            },
            ServiceEvent::CouldNotRun(reason) => finish(
                op,
                v,
                Err(tag(v, owned("Failed to find skhd in PATH: ").concat(reason.as_str()).as_str())),
            ),
            _ => finish(op, v, Ok(())),
        },
        Stage::Commanding(p) => match e {
            ServiceEvent::CouldNotRun(reason) => finish(
                op,
                v,
                Err(launch_failure_message(op, v, reason.as_str())),
            ),
            ServiceEvent::Exited { success, stderr, .. } => {
                if *success {
                    if op == ServiceOp::Start || op == ServiceOp::Stop || op == ServiceOp::Restart {
                        (
                            ServiceTask { op, variant: v, stage: Stage::Settling },
                            ServiceAction::Wait(wait_ms(op)),
                        )
                    } else {
                        finish(op, v, Ok(()))
                    }
                } else if v == SkhdVariant::Original && (op == ServiceOp::Start || op
                    == ServiceOp::Stop) {
                    (
                        ServiceTask { op, variant: v, stage: Stage::FallingBack },
                        ServiceAction::Run(fallback(op, p.as_str())),
                    )
                } else if v == SkhdVariant::Original && op == ServiceOp::Restart {
                    (
                        ServiceTask {
                            op,
                            variant: v,
                            stage: Stage::StoppingForRestart(trim(stderr.as_str())),
                        },
                        ServiceAction::Perform(ServiceOp::Stop),
                    )
                } else {
                    let out = trim(stderr.as_str());
                    finish(op, v, Err(exit_failure_message(op, v, out.as_str())))
                }
            },
            _ => finish(op, v, Ok(())),
        },
        Stage::FallingBack => (
            ServiceTask { op, variant: v, stage: Stage::Settling },
            ServiceAction::Wait(wait_ms(op)),
        ),
        Stage::Settling => (
            ServiceTask { op, variant: v, stage: Stage::Checking },
            ServiceAction::CheckStatus,
        ),
        Stage::Checking => match e {
            ServiceEvent::Status(Ok((state, message))) => {
                let r = if op == ServiceOp::Start || op == ServiceOp::Stop || op == ServiceOp::Restart {
                    verdict(op, v, *state, message.clone())
                } else {
                    restart_verdict(v, *state)
                };
                finish(op, v, r)
            },
            ServiceEvent::Status(Err(m)) => finish(op, v, Err(m.clone())),
            _ => finish(op, v, Ok(())),
        },
        Stage::StoppingForRestart(output) => match e {
            ServiceEvent::Performed(Ok(())) => (
                ServiceTask { op, variant: v, stage: Stage::StartingForRestart },
                ServiceAction::Perform(ServiceOp::Start),
            ),
            _ => finish(op, v, Err(exit_failure_message(ServiceOp::Restart, v, output.as_str()))),
        },
        Stage::StartingForRestart => match e {
            ServiceEvent::Performed(Ok(())) => finish(op, v, Ok(())),
            ServiceEvent::Performed(Err(m)) => finish(op, v, Err(m.clone())),
            _ => finish(op, v, Ok(())),
        },
        Stage::Finished => finish(op, v, Ok(())),
    }
}

// ------------------------------------------------------------------
// Laws
// ------------------------------------------------------------------

/// Reloading runs `skhd --reload` for the original skhd, and the skhd.zig
/// binary with `--reload`, whether detection found it or PATH did: the same
/// command line for both variants.
pub proof fn law_reload_runs_skhd_reload(binary: Seq<char>, which_output: Seq<char>)
    requires
        trim_seq(which_output).len() > 0,
    ensures
        spec_begin(ServiceOp::Reload, SkhdVariant::Original, None).1 == ActionModel::Run(
            seq!["skhd"@, "--reload"@],
        ),
        spec_begin(ServiceOp::Reload, SkhdVariant::Zig, Some(binary)).1 == ActionModel::Run(
            seq![binary, "--reload"@],
        ),
        spec_step(
            spec_begin(ServiceOp::Reload, SkhdVariant::Zig, None).0,
            EventModel::Exited { success: true, stdout: which_output, stderr: Seq::empty() },
        ).1 == ActionModel::Run(seq![trim_seq(which_output), "--reload"@]),
{
}

/// Each variant is started, stopped and restarted with its own commands: the
/// original skhd with `launchctl bootstrap` and `bootout` on the plist under
/// the home directory and with `brew services restart skhd`, skhd.zig with its
/// binary's `--start-service`, `--stop-service` and `--restart-service`.
pub proof fn law_variant_commands(home: Seq<char>, binary: Seq<char>)
    ensures
        spec_step(
            spec_begin(ServiceOp::Start, SkhdVariant::Original, None).0,
            EventModel::Home(Some(home)),
        ).1 == ActionModel::Run(
            seq!["launchctl"@, "bootstrap"@, gui_domain(), spec_plist_path(home)],
        ),
        spec_step(
            spec_begin(ServiceOp::Stop, SkhdVariant::Original, None).0,
            EventModel::Home(Some(home)),
        ).1 == ActionModel::Run(seq!["launchctl"@, "bootout"@, gui_domain(), spec_plist_path(home)]),
        spec_begin(ServiceOp::Restart, SkhdVariant::Original, None).1 == ActionModel::Run(
            seq!["brew"@, "services"@, "restart"@, "skhd"@],
        ),
        spec_begin(ServiceOp::Start, SkhdVariant::Zig, Some(binary)).1 == ActionModel::Run(
            seq![binary, "--start-service"@],
        ),
        spec_begin(ServiceOp::Stop, SkhdVariant::Zig, Some(binary)).1 == ActionModel::Run(
            seq![binary, "--stop-service"@],
        ),
        spec_begin(ServiceOp::Restart, SkhdVariant::Zig, Some(binary)).1 == ActionModel::Run(
            seq![binary, "--restart-service"@],
        ),
{
}

/// How many steps at most remain at a stage.
pub open spec fn steps_left(s: StageModel) -> nat {
    match s {
        StageModel::ReadingConfigEnv(_) => 8,
        StageModel::CheckingConfig(_, _) => 7,
        StageModel::ReadingConfig(_) => 6,
        StageModel::ReadingHome => 5,
        StageModel::Finding => 5,
        StageModel::Commanding(_) => 4,
        StageModel::FallingBack => 3,
        StageModel::Settling => 2,
        StageModel::Checking => 1,
        StageModel::StoppingForRestart(_) => 2,
        StageModel::StartingForRestart => 1,
        StageModel::Finished => 0,
    }
}

/// Every operation finishes: each step moves to a stage with fewer steps left,
/// and an operation is over exactly when its action is to finish. Only a restart
/// of the original skhd asks for other operations: a stop, and once that stop
/// went through, a start.
pub proof fn law_operations_finish(t: TaskModel, e: EventModel)
    requires
        spec_accepts(t.stage, e),
    ensures
        steps_left(spec_step(t, e).0.stage) < steps_left(t.stage),
        (spec_step(t, e).1 is Finish) == (spec_step(t, e).0.stage is Finished),
        spec_step(t, e).0.stage is StoppingForRestart ==> t.op == ServiceOp::Restart && t.variant
            == SkhdVariant::Original,
        spec_step(t, e).1 matches ActionModel::Perform(other) ==> (other == ServiceOp::Stop
            && spec_step(t, e).0.stage is StoppingForRestart) || (other == ServiceOp::Start
            && t.stage is StoppingForRestart && e matches EventModel::Performed(Ok(_))),
        spec_step(t, e).0.op == t.op && spec_step(t, e).0.variant == t.variant,
{
}

/// Every failure of an operation names the variant acted upon, at every step:
/// refusals, a home directory or binary that cannot be found, a command that
/// cannot be started or that fails, and the judgement of the status read after
/// it. A failure received from a status reading or from another operation is
/// passed on; those name the variant too (`law_status_reading_finishes`, and
/// this law for the other operation).
pub proof fn law_failures_name_the_variant(
    op: ServiceOp,
    v: SkhdVariant,
    detected_binary: Option<Seq<char>>,
    t: TaskModel,
    e: EventModel,
)
    requires
        spec_accepts(t.stage, e),
        e matches EventModel::Status(Err(m)) ==> names_variant(t.variant, m),
        e matches EventModel::Performed(Err(m)) ==> names_variant(t.variant, m),
    ensures
        spec_begin(op, v, detected_binary).1 matches ActionModel::Finish(Err(m)) ==> names_variant(
            v,
            m,
        ),
        spec_step(t, e).1 matches ActionModel::Finish(Err(m)) ==> names_variant(t.variant, m),
{
    let w = t.variant;
    if v == SkhdVariant::Original && op == ServiceOp::Install {
        lemma_tagged_names_variant(
            v,
            "Service installation is handled via the plist file. Install skhd via Homebrew and use 'brew services start skhd'."@,
        );
    }
    if v == SkhdVariant::Original && op == ServiceOp::Uninstall {
        lemma_tagged_names_variant(
            v,
            "Service uninstallation is handled via the plist file. Stop skhd with 'brew services stop skhd'."@,
        );
    }
    match t.stage {
        StageModel::ReadingConfig(_) => {
            lemma_tagged_names_variant(w, grabber_refusal_text());
        },
        StageModel::ReadingHome => {
            lemma_tagged_names_variant(
                w,
                "Failed to get HOME environment variable. This is required to locate the skhd plist file."@,
            );
        },
        StageModel::Finding => {
            lemma_tagged_names_variant(w, "skhd not found in PATH"@);
            if let EventModel::CouldNotRun(reason) = e {
                lemma_tagged_names_variant(w, "Failed to find skhd in PATH: "@ + reason);
            }
        },
        StageModel::Commanding(_) => match e {
            EventModel::CouldNotRun(reason) => {
                lemma_tagged_names_variant(
                    w,
                    "Failed to execute "@ + spec_command_name(t.op, w) + ": "@ + reason + ". "@
                        + spec_launch_hint(t.op, w),
                );
            },
            EventModel::Exited { stderr, .. } => {
                lemma_tagged_names_variant(
                    w,
                    "Failed to "@ + spec_verb(t.op) + " service: "@ + trim_seq(stderr) + "."@
                        + spec_exit_advice(t.op),
                );
            },
            _ => {},
        },
        StageModel::Checking => {
            if let EventModel::Status(Ok((state, message))) = e {
                law_start_refusals_name_the_variant(w, state, message);
                lemma_tagged_names_variant(w, msg_still_running());
                lemma_tagged_names_variant(w, msg_restart_failed());
            }
        },
        StageModel::StoppingForRestart(output) => {
            lemma_tagged_names_variant(
                w,
                "Failed to "@ + spec_verb(ServiceOp::Restart) + " service: "@ + output + "."@
                    + spec_exit_advice(ServiceOp::Restart),
            );
        },
        _ => {},
    }
}

/// skhd.zig's service is not installed for a configuration with block-form
/// `.remap` rules: once the configuration file found is read and holds such a
/// rule, whether or not the rest of it parses, the install is refused with
/// advice to run it in a terminal, and no command is run. Without such a rule,
/// the install command is run as usual.
pub proof fn law_block_remap_refuses_install(
    detected_binary: Option<Seq<char>>,
    home: Seq<char>,
    xdg_config_home: Option<Seq<char>>,
    flags: Seq<bool>,
    text: Seq<char>,
)
    requires
        flags.len() == spec_service_config_candidates(SkhdVariant::Zig, home, xdg_config_home).len(),
        first_existing(spec_service_config_candidates(SkhdVariant::Zig, home, xdg_config_home), flags) is Some,
    ensures
        ({
            let begun = spec_begin(ServiceOp::Install, SkhdVariant::Zig, detected_binary);
            let env = spec_step(begun.0, EventModel::Env { home: Some(home), xdg_config_home });
            let found = spec_step(env.0, EventModel::Existence(flags));
            let read = spec_step(found.0, EventModel::FileText(Some(text)));
            &&& begun.1 == ActionModel::ReadEnv
            &&& found.1 == ActionModel::ReadFile(
                first_existing(
                    spec_service_config_candidates(SkhdVariant::Zig, home, xdg_config_home),
                    flags,
                )->0,
            )
            &&& (exists|i: int|
                0 <= i < pieces(text, 0, '\n').len() && #[trigger] opens_block_remap(
                    pieces(text, 0, '\n')[i],
                )) ==> text_has_block_remap(text)
            &&& text_has_block_remap(text) ==> read.1 == ActionModel::Finish(
                Err(grabber_refusal(SkhdVariant::Zig)),
            )
            &&& !text_has_block_remap(text) ==> read == zig_command(
                ServiceOp::Install,
                SkhdVariant::Zig,
                detected_binary,
            )
        }),
{
}

/// A stop fails exactly when the service still runs once it is over: whatever
/// else the status read afterwards says (stopped, in error, or no longer listed
/// at all), the stop went through. A start and a restart, on the contrary,
/// succeed exactly when the service then runs.
pub proof fn law_verdict_follows_running_state(
    t: TaskModel,
    state: ServiceState,
    message: Option<Seq<char>>,
)
    requires
        t.stage == StageModel::Checking,
    ensures
        spec_step(t, EventModel::Status(Ok((state, message)))).1 matches ActionModel::Finish(r)
            && (t.op == ServiceOp::Stop ==> (r is Ok <==> state != ServiceState::Running))
            && (t.op == ServiceOp::Start ==> (r is Ok <==> state == ServiceState::Running))
            && (t.op == ServiceOp::Restart ==> (r is Ok <==> state == ServiceState::Running)),
{
}

} // verus!

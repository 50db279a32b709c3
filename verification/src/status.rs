//! Reading the status of the skhd service, as a sequence of steps.
//!
//! The status comes from `launchctl list`, read for the variant's launchd label.
//! When skhd.zig has no job there, its binary is asked with `--status`: the
//! binary that detection found, or else the `skhd` on PATH. The configuration
//! file the service reads is then looked up. Carrying out the steps is left to
//! the caller: [`status_begin`] gives the first action and [`status_step`] takes
//! each event to the next, until a report or a failure.
use vstd::prelude::*;

use crate::detect::trim_seq;
use crate::models::{spec_plist_label, ServiceState, SkhdVariant};
use crate::paths::{
    first_existing, first_existing_config_path, opt_view, service_config_candidates,
    spec_service_config_candidates,
};
use crate::service::{
    lemma_tagged_names_variant, names_variant, tag, tagged, launchctl_missing_message, parse_launchctl_entry, spec_launchctl_entry, spec_status_report,
    status_report, StatusOutput,
};
use crate::text::{owned, trim};

verus! {

/// What is known of the service before its configuration file is looked up.
#[derive(Debug, Clone, PartialEq)]
pub struct StatusFacts {
    pub state: ServiceState,
    pub pid: Option<u32>,
    pub error_message: Option<String>,
}

/// The status of the service, as the interface shows it (but for its time).
#[derive(Debug, Clone, PartialEq)]
pub struct StatusReport {
    pub state: ServiceState,
    pub pid: Option<u32>,
    pub config_path: Option<String>,
    pub error_message: Option<String>,
}

/// What a status reading waits for.
#[derive(Debug, Clone, PartialEq)]
pub enum StatusStage {
    /// The outcome of `launchctl list`.
    Listing,
    /// The outcome of `which skhd`.
    Finding,
    /// The outcome of `<binary> --status`.
    Querying,
    /// The values of `HOME` and `XDG_CONFIG_HOME`.
    ReadingEnv(StatusFacts),
    /// Which of the candidate configuration files exist.
    CheckingFiles(StatusFacts, Vec<String>),
    /// Nothing: the reading is over.
    Finished,
}

/// A status reading in progress.
#[derive(Debug, Clone, PartialEq)]
pub struct StatusTask {
    pub variant: SkhdVariant,
    /// The binary that detection found, if any.
    pub detected_binary: Option<String>,
    pub stage: StatusStage,
}

/// What the caller is asked to do next.
#[derive(Debug)]
pub enum StatusAction {
    /// Run a program (the first word) with arguments (the others).
    Run(Vec<String>),
    /// Read the environment variables `HOME` and `XDG_CONFIG_HOME`.
    ReadEnv,
    /// Tell, for each of these paths, whether a file exists there.
    CheckFiles(Vec<String>),
    /// The reading is over, with this status.
    Report(StatusReport),
    /// The reading failed, for this reason.
    Fail(String),
}

/// What happened.
#[derive(Debug)]
pub enum StatusEvent {
    /// The program could not be started, for this reason.
    CouldNotRun(String),
    /// The program ran and exited, with its outputs (decoded leniently).
    Exited { success: bool, stdout: String, stderr: String },
    /// The environment variables, where set.
    Env { home: Option<String>, xdg_config_home: Option<String> },
    /// Whether each path asked about exists, in the same order.
    Existence(Vec<bool>),
}

pub struct FactsModel {
    pub state: ServiceState,
    pub pid: Option<u32>,
    pub error_message: Option<Seq<char>>,
}

pub struct StatusReportModel {
    pub state: ServiceState,
    pub pid: Option<u32>,
    pub config_path: Option<Seq<char>>,
    pub error_message: Option<Seq<char>>,
}

pub enum StatusStageModel {
    Listing,
    Finding,
    Querying,
    ReadingEnv(FactsModel),
    CheckingFiles(FactsModel, Seq<Seq<char>>),
    Finished,
}

pub struct StatusTaskModel {
    pub variant: SkhdVariant,
    pub detected_binary: Option<Seq<char>>,
    pub stage: StatusStageModel,
}

pub enum StatusActionModel {
    Run(Seq<Seq<char>>),
    ReadEnv,
    CheckFiles(Seq<Seq<char>>),
    Report(StatusReportModel),
    Fail(Seq<char>),
}

pub enum StatusEventModel {
    CouldNotRun(Seq<char>),
    Exited { success: bool, stdout: Seq<char>, stderr: Seq<char> },
    Env { home: Option<Seq<char>>, xdg_config_home: Option<Seq<char>> },
    Existence(Seq<bool>),
}

impl View for StatusFacts {
    type V = FactsModel;

    open spec fn view(&self) -> FactsModel {
        FactsModel {
            state: self.state,
            pid: self.pid,
            error_message: self.error_message.deep_view(),
        }
    }
}

impl View for StatusReport {
    type V = StatusReportModel;

    open spec fn view(&self) -> StatusReportModel {
        StatusReportModel {
            state: self.state,
            pid: self.pid,
            config_path: self.config_path.deep_view(),
            error_message: self.error_message.deep_view(),
        }
    }
}

impl View for StatusStage {
    type V = StatusStageModel;

    open spec fn view(&self) -> StatusStageModel {
        match self {
            StatusStage::Listing => StatusStageModel::Listing,
            StatusStage::Finding => StatusStageModel::Finding,
            StatusStage::Querying => StatusStageModel::Querying,
            StatusStage::ReadingEnv(f) => StatusStageModel::ReadingEnv(f@),
            StatusStage::CheckingFiles(f, c) => StatusStageModel::CheckingFiles(f@, c.deep_view()),
            StatusStage::Finished => StatusStageModel::Finished,
        }
    }
}

impl View for StatusTask {
    type V = StatusTaskModel;

    open spec fn view(&self) -> StatusTaskModel {
        StatusTaskModel {
            variant: self.variant,
            detected_binary: self.detected_binary.deep_view(),
            stage: self.stage@,
        }
    }
}

impl View for StatusAction {
    type V = StatusActionModel;

    open spec fn view(&self) -> StatusActionModel {
        match self {
            StatusAction::Run(argv) => StatusActionModel::Run(argv.deep_view()),
            StatusAction::ReadEnv => StatusActionModel::ReadEnv,
            StatusAction::CheckFiles(c) => StatusActionModel::CheckFiles(c.deep_view()),
            StatusAction::Report(r) => StatusActionModel::Report(r@),
            StatusAction::Fail(m) => StatusActionModel::Fail(m@),
        }
    }
}

impl View for StatusEvent {
    type V = StatusEventModel;

    open spec fn view(&self) -> StatusEventModel {
        match self {
            StatusEvent::CouldNotRun(r) => StatusEventModel::CouldNotRun(r@),
            StatusEvent::Exited { success, stdout, stderr } => StatusEventModel::Exited {
                success: *success,
                stdout: stdout@,
                stderr: stderr@,
            },
            StatusEvent::Env { home, xdg_config_home } => StatusEventModel::Env {
                home: home.deep_view(),
                xdg_config_home: xdg_config_home.deep_view(),
            },
            StatusEvent::Existence(flags) => StatusEventModel::Existence(flags@),
        }
    }
}

// ------------------------------------------------------------------
// The steps
// ------------------------------------------------------------------

pub open spec fn launchctl_failure(v: SkhdVariant, reason: Seq<char>) -> Seq<char> {
    tagged(v, launchctl_failure_text(reason))
}

pub open spec fn launchctl_failure_text(reason: Seq<char>) -> Seq<char> {
    "Failed to execute launchctl command: "@ + reason
        + ". Make sure you're running on macOS and launchctl is available."@
}

pub open spec fn zig_not_found() -> Seq<char> {
    "skhd.zig service not found. Install skhd.zig and register the service with: skhd --install-service && skhd --start-service"@
}

pub open spec fn launchctl_missing(label: Seq<char>) -> Seq<char> {
    "skhd service not found in launchctl list (label: "@ + label + ")."@
}

/// Whether a task at `stage` waits for an event like `e`.
pub open spec fn spec_status_accepts(stage: StatusStageModel, e: StatusEventModel) -> bool {
    match stage {
        StatusStageModel::Listing => e is CouldNotRun || e is Exited,
        StatusStageModel::Finding => e is CouldNotRun || e is Exited,
        StatusStageModel::Querying => e is CouldNotRun || e is Exited,
        StatusStageModel::ReadingEnv(_) => e is Env,
        StatusStageModel::CheckingFiles(_, c) => match e {
            StatusEventModel::Existence(flags) => flags.len() == c.len(),
            _ => false,
        },
        StatusStageModel::Finished => false,
    }
}

pub open spec fn status_at(t: StatusTaskModel, stage: StatusStageModel) -> StatusTaskModel {
    StatusTaskModel { stage, ..t }
}

pub open spec fn with_config(f: FactsModel, config_path: Option<Seq<char>>) -> StatusReportModel {
    StatusReportModel { state: f.state, pid: f.pid, config_path, error_message: f.error_message }
}

/// A reading begins with `launchctl list`.
pub open spec fn spec_status_begin(v: SkhdVariant, detected_binary: Option<Seq<char>>) -> (
    StatusTaskModel,
    StatusActionModel,
) {
    (
        StatusTaskModel { variant: v, detected_binary, stage: StatusStageModel::Listing },
        StatusActionModel::Run(seq!["launchctl"@, "list"@]),
    )
}

/// Where a reading goes from `t` on event `e` (one that `t` waits for).
pub open spec fn spec_status_step(t: StatusTaskModel, e: StatusEventModel) -> (
    StatusTaskModel,
    StatusActionModel,
) {
    let v = t.variant;
    let fin = status_at(t, StatusStageModel::Finished);
    let look_up = |f: FactsModel| (status_at(t, StatusStageModel::ReadingEnv(f)), StatusActionModel::ReadEnv);
    let query = |binary: Seq<char>| (
        status_at(t, StatusStageModel::Querying),
        StatusActionModel::Run(seq![binary, "--status"@]),
    );
    let not_found = FactsModel {
        state: ServiceState::Unknown,
        pid: None,
        error_message: Some(zig_not_found()),
    };
    match t.stage {
        StatusStageModel::Listing => match e {
            StatusEventModel::Exited { stdout, .. } => match spec_launchctl_entry(
                stdout,
                spec_plist_label(v),
            ) {
                Some(entry) => look_up(
                    FactsModel {
                        state: entry.state,
                        pid: entry.pid,
                        error_message: entry.error_message,
                    },
                ),
                None => if v == SkhdVariant::Original {
                    (
                        fin,
                        StatusActionModel::Report(
                            StatusReportModel {
                                state: ServiceState::Unknown,
                                pid: None,
                                config_path: None,
                                error_message: Some(launchctl_missing(spec_plist_label(v))),
                            },
                        ),
                    )
                } else {
                    match t.detected_binary {
                        Some(b) => query(b),
                        None => (
                            status_at(t, StatusStageModel::Finding),
                            StatusActionModel::Run(seq!["which"@, "skhd"@]),
                        ),
                    }
                },
            },
            StatusEventModel::CouldNotRun(reason) => (
                fin,
                StatusActionModel::Fail(launchctl_failure(v, reason)),
            ),
            _ => (fin, StatusActionModel::ReadEnv),
        },
        StatusStageModel::Finding => match e {
            StatusEventModel::Exited { success, stdout, .. } => if success && trim_seq(stdout).len()
                > 0 {
                query(trim_seq(stdout))
            } else {
                look_up(not_found)
            },
            _ => look_up(not_found),
        },
        StatusStageModel::Querying => {
            let r = match e {
                StatusEventModel::Exited { success, stdout, stderr } => spec_status_report(
                    Some((success, stdout, stderr)),
                ),
                _ => spec_status_report(None),
            };
            look_up(FactsModel { state: r.state, pid: None, error_message: r.error_message })
        },
        StatusStageModel::ReadingEnv(f) => match e {
            StatusEventModel::Env { home: Some(h), xdg_config_home } => {
                let c = spec_service_config_candidates(v, h, xdg_config_home);
                (
                    status_at(t, StatusStageModel::CheckingFiles(f, c)),
                    StatusActionModel::CheckFiles(c),
                )
            },
            _ => (fin, StatusActionModel::Report(with_config(f, None))),
        },
        StatusStageModel::CheckingFiles(f, c) => match e {
            StatusEventModel::Existence(flags) => (
                fin,
                StatusActionModel::Report(with_config(f, first_existing(c, flags))),
            ),
            _ => (fin, StatusActionModel::ReadEnv),
        },
        StatusStageModel::Finished => (fin, StatusActionModel::ReadEnv),
    }
}

// ------------------------------------------------------------------
// The executable steps
// ------------------------------------------------------------------

fn copy_text(o: &Option<String>) -> (r: Option<String>)
    ensures
        r.deep_view() == o.deep_view(),
{
    match o {
        Some(s) => Some(s.clone()),
        None => None,
    }
}

fn copy_facts(f: &StatusFacts) -> (r: StatusFacts)
    ensures
        r@ == f@,
{
    StatusFacts { state: f.state, pid: f.pid, error_message: copy_text(&f.error_message) }
}

fn moved(t: &StatusTask, stage: StatusStage) -> (r: StatusTask)
    ensures
        r@ == status_at(t@, stage@),
{
    StatusTask { variant: t.variant, detected_binary: copy_text(&t.detected_binary), stage }
}

fn finished(t: &StatusTask, a: StatusAction) -> (r: (StatusTask, StatusAction))
    ensures
        r.0@ == status_at(t@, StatusStageModel::Finished),
        r.1@ == a@,
{
    (moved(t, StatusStage::Finished), a)
}

fn look_up(t: &StatusTask, f: StatusFacts) -> (r: (StatusTask, StatusAction))
    ensures
        r.0@ == status_at(t@, StatusStageModel::ReadingEnv(f@)),
        r.1@ == StatusActionModel::ReadEnv,
{
    (moved(t, StatusStage::ReadingEnv(f)), StatusAction::ReadEnv)
}

fn query(t: &StatusTask, binary: &str) -> (r: (StatusTask, StatusAction))
    ensures
        r.0@ == status_at(t@, StatusStageModel::Querying),
        r.1@ == StatusActionModel::Run(seq![binary@, "--status"@]),
{
    let argv = vec![owned(binary), owned("--status")];
    proof {
        assert(argv.deep_view() =~= seq![binary@, "--status"@]);
    }
    (moved(t, StatusStage::Querying), StatusAction::Run(argv))
}

fn not_found() -> (r: StatusFacts)
    ensures
        r@ == (FactsModel {
            state: ServiceState::Unknown,
            pid: None,
            error_message: Some(zig_not_found()),
        }),
{
    StatusFacts {
        state: ServiceState::Unknown,
        pid: None,
        error_message: Some(
            owned(
                "skhd.zig service not found. Install skhd.zig and register the service with: skhd --install-service && skhd --start-service",
            ),
        ),
    }
}

fn report(f: &StatusFacts, config_path: Option<String>) -> (r: StatusReport)
    ensures
        r@ == with_config(f@, config_path.deep_view()),
{
    StatusReport {
        state: f.state,
        pid: f.pid,
        config_path,
        error_message: copy_text(&f.error_message),
    }
}

fn candidates(v: SkhdVariant, home: &str, xdg_config_home: &Option<String>) -> (r: Vec<String>)
    ensures
        r.deep_view() == spec_service_config_candidates(v, home@, xdg_config_home.deep_view()),
{
    match xdg_config_home {
        Some(x) => service_config_candidates(v, home, Some(x.as_str())),
        None => service_config_candidates(v, home, None),
    }
}

/// The first action of a reading of variant `v`'s status, given the binary
/// that detection found, if any.
pub fn status_begin(v: SkhdVariant, detected_binary: Option<String>) -> (r: (StatusTask, StatusAction))
    ensures
        (r.0@, r.1@) == spec_status_begin(v, detected_binary.deep_view()),
{
    let argv = vec![owned("launchctl"), owned("list")];
    proof {
        assert(argv.deep_view() =~= seq!["launchctl"@, "list"@]);
    }
    (StatusTask { variant: v, detected_binary, stage: StatusStage::Listing }, StatusAction::Run(argv))
}

impl StatusTask {
    /// Whether the reading waits for an event like `e`.
    pub fn accepts(&self, e: &StatusEvent) -> (r: bool)
        ensures
            r == spec_status_accepts(self@.stage, e@),
    {
        match &self.stage {
            StatusStage::Listing | StatusStage::Finding | StatusStage::Querying => matches!(
                e,
                StatusEvent::CouldNotRun(_) | StatusEvent::Exited { .. }
            ),
            StatusStage::ReadingEnv(_) => matches!(e, StatusEvent::Env { .. }),
            StatusStage::CheckingFiles(_, c) => match e {
                StatusEvent::Existence(flags) => flags.len() == c.len(),
                _ => false,
            },
            StatusStage::Finished => false,
        }
    }
}

/// The next action of reading `t` once event `e` happened.
pub fn status_step(t: &StatusTask, e: &StatusEvent) -> (r: (StatusTask, StatusAction))
    requires
        spec_status_accepts(t@.stage, e@),
    ensures
        (r.0@, r.1@) == spec_status_step(t@, e@),
{
    let v = t.variant;
    match &t.stage {
        StatusStage::Listing => match e {
            StatusEvent::Exited { stdout, .. } => {
                let label = v.plist_label();
                match parse_launchctl_entry(stdout.as_str(), label) {
                    Some(entry) => look_up(
                        t,
                        StatusFacts {
                            state: entry.state,
                            pid: entry.pid,
                            error_message: entry.error_message,
                        },
                    ),
                    None => if v == SkhdVariant::Original {
                        finished(
                            t,
                            StatusAction::Report(
                                StatusReport {
                                    state: ServiceState::Unknown,
                                    pid: None,
                                    config_path: None,
                                    error_message: Some(launchctl_missing_message(label)),
                                },
                            ),
                        )
                    } else {
                        match &t.detected_binary {
                            Some(b) => query(t, b.as_str()),
                            None => {
                                let argv = vec![owned("which"), owned("skhd")];
                                proof {
                                    assert(argv.deep_view() =~= seq!["which"@, "skhd"@]);
                                }
                                (moved(t, StatusStage::Finding), StatusAction::Run(argv))
                            },
                        }
                    },
                }
            },
            StatusEvent::CouldNotRun(reason) => {
                let m = owned("Failed to execute launchctl command: ").concat(reason.as_str());
                let m = m.concat(". Make sure you're running on macOS and launchctl is available.");
                finished(t, StatusAction::Fail(tag(v, m.as_str())))
            },
            _ => finished(t, StatusAction::ReadEnv),
        },
        StatusStage::Finding => match e {
            StatusEvent::Exited { success, stdout, .. } => {
                let path = trim(stdout.as_str());
                if *success && path.as_str().unicode_len() > 0 {
                    query(t, path.as_str())
                } else {
                    look_up(t, not_found())
                }
            },
            _ => look_up(t, not_found()),
        },
        StatusStage::Querying => {
            let o = match e {
                StatusEvent::Exited { success, stdout, stderr } => StatusOutput::Ran {
                    success: *success,
                    stdout: stdout.clone(),
                    stderr: stderr.clone(),
                },
                _ => StatusOutput::CouldNotRun,
            };
            let (state, error_message) = status_report(&o);
            look_up(t, StatusFacts { state, pid: None, error_message })
        },
        StatusStage::ReadingEnv(f) => match e {
            StatusEvent::Env { home: Some(h), xdg_config_home } => {
                let c = candidates(v, h.as_str(), xdg_config_home);
                let asked = candidates(v, h.as_str(), xdg_config_home);
                (moved(t, StatusStage::CheckingFiles(copy_facts(f), c)), StatusAction::CheckFiles(asked))
            },
            _ => finished(t, StatusAction::Report(report(f, None))),
        },
        StatusStage::CheckingFiles(f, c) => match e {
            StatusEvent::Existence(flags) => {
                let found = first_existing_config_path(c, flags);
                finished(t, StatusAction::Report(report(f, found)))
            },
            _ => finished(t, StatusAction::ReadEnv),
        },
        StatusStage::Finished => finished(t, StatusAction::ReadEnv),
    }
}

// ------------------------------------------------------------------
// Laws
// ------------------------------------------------------------------

/// How many steps at most remain at a stage.
pub open spec fn status_steps_left(s: StatusStageModel) -> nat {
    match s {
        StatusStageModel::Listing => 5,
        StatusStageModel::Finding => 4,
        StatusStageModel::Querying => 3,
        StatusStageModel::ReadingEnv(_) => 2,
        StatusStageModel::CheckingFiles(_, _) => 1,
        StatusStageModel::Finished => 0,
    }
}

/// Every reading finishes: each step moves to a stage with fewer steps left, and
/// a reading is over exactly when it reports or fails. A failure names the variant.
pub proof fn law_status_reading_finishes(t: StatusTaskModel, e: StatusEventModel)
    requires
        spec_status_accepts(t.stage, e),
    ensures
        status_steps_left(spec_status_step(t, e).0.stage) < status_steps_left(t.stage),
        (spec_status_step(t, e).1 is Report || spec_status_step(t, e).1 is Fail) == (spec_status_step(
            t,
            e,
        ).0.stage is Finished),
        spec_status_step(t, e).0.variant == t.variant,
        spec_status_step(t, e).1 matches StatusActionModel::Fail(m) ==> names_variant(t.variant, m),
{
    if let (StatusStageModel::Listing, StatusEventModel::CouldNotRun(reason)) = (t.stage, e) {
        lemma_tagged_names_variant(t.variant, launchctl_failure_text(reason));
    }
}

/// A job that `launchctl list` shows under the variant's own label is reported
/// in the state, with the PID and with the message that its line gives, whatever
/// the environment and the file system then say.
pub proof fn law_listed_job_is_reported(
    v: SkhdVariant,
    detected_binary: Option<Seq<char>>,
    success: bool,
    stdout: Seq<char>,
    stderr: Seq<char>,
    home: Option<Seq<char>>,
    xdg_config_home: Option<Seq<char>>,
    flags: Seq<bool>,
)
    requires
        spec_launchctl_entry(stdout, spec_plist_label(v)) is Some,
        home matches Some(h) ==> flags.len() == spec_service_config_candidates(
            v,
            h,
            xdg_config_home,
        ).len(),
    ensures
        ({
            let entry = spec_launchctl_entry(stdout, spec_plist_label(v))->0;
            let listed = spec_status_step(
                spec_status_begin(v, detected_binary).0,
                StatusEventModel::Exited { success, stdout, stderr },
            );
            let env = spec_status_step(
                listed.0,
                StatusEventModel::Env { home, xdg_config_home },
            );
            let last = if home is Some {
                spec_status_step(env.0, StatusEventModel::Existence(flags)).1
            } else {
                env.1
            };
            &&& listed.1 == StatusActionModel::ReadEnv
            &&& last matches StatusActionModel::Report(r) && r.state == entry.state && r.pid
                == entry.pid && r.error_message == entry.error_message
        }),
{
}

/// The status of skhd.zig is read in this order: its `launchctl` job; when that
/// is not listed, the binary detection found, asked with `--status`; without one,
/// the `skhd` on PATH, asked the same way; and when none is found, the status is
/// unknown, with advice to install and start the service. (`launchctl` that
/// cannot run fails the reading.)
pub proof fn law_zig_status_fallback(
    detected_binary: Option<Seq<char>>,
    listed: StatusEventModel,
    which: StatusEventModel,
    queried: StatusEventModel,
)
    requires
        listed is CouldNotRun || listed is Exited,
        which is CouldNotRun || which is Exited,
        queried is CouldNotRun || queried is Exited,
    ensures
        ({
            let begun = spec_status_begin(SkhdVariant::Zig, detected_binary);
            let after_list = spec_status_step(begun.0, listed);
            let after_which = spec_status_step(after_list.0, which);
            let after_query = spec_status_step(after_list.0, queried);
            let report = match queried {
                StatusEventModel::Exited { success, stdout, stderr } => spec_status_report(
                    Some((success, stdout, stderr)),
                ),
                _ => spec_status_report(None),
            };
            &&& begun.1 == StatusActionModel::Run(seq!["launchctl"@, "list"@])
            &&& listed matches StatusEventModel::CouldNotRun(reason) ==> after_list.1
                == StatusActionModel::Fail(launchctl_failure(SkhdVariant::Zig, reason))
            &&& listed matches StatusEventModel::Exited { stdout, .. } ==> {
                if spec_launchctl_entry(stdout, spec_plist_label(SkhdVariant::Zig)) is Some {
                    after_list.1 == StatusActionModel::ReadEnv
                } else {
                    match detected_binary {
                        Some(b) => {
                            &&& after_list.1 == StatusActionModel::Run(seq![b, "--status"@])
                            &&& after_query.0.stage == StatusStageModel::ReadingEnv(
                                FactsModel {
                                    state: report.state,
                                    pid: None,
                                    error_message: report.error_message,
                                },
                            )
                        },
                        None => {
                            &&& after_list.1 == StatusActionModel::Run(seq!["which"@, "skhd"@])
                            &&& which matches StatusEventModel::Exited { success, stdout: w, .. }
                                ==> if success && trim_seq(w).len() > 0 {
                                after_which.1 == StatusActionModel::Run(seq![trim_seq(w), "--status"@])
                            } else {
                                after_which.0.stage == StatusStageModel::ReadingEnv(
                                FactsModel {
                                    state: ServiceState::Unknown,
                                    pid: None,
                                    error_message: Some(zig_not_found()),
                                },
                            )
                            }
                            &&& which is CouldNotRun ==> after_which.0.stage == StatusStageModel::ReadingEnv(
                                FactsModel {
                                    state: ServiceState::Unknown,
                                    pid: None,
                                    error_message: Some(zig_not_found()),
                                },
                            )
                        },
                    }
                }
            }
        }),
{
}

} // verus!

//! Detection of the installed skhd variant, as a sequence of probes.
//!
//! The probes are tried in this order, and the first that finds a variant decides:
//! a loaded launchd job (skhd.zig first), an installed Homebrew formula (skhd.zig
//! first), an `skhd` binary on PATH fingerprinted by its `--version` output, and
//! the skhd.zig application bundle. Running the probes is left to the caller:
//! [`detection_start`] names the first probe and [`detection_step`] takes each
//! outcome to the next probe or to the result.
use vstd::prelude::*;

use crate::models::{
    spec_plist_label, DetectedModel, DetectedVariant, DetectionSource, SkhdVariant,
};
use crate::text::{contains_str, owned, seq_contains, trim, trimmed};

verus! {

/// What to look at next.
#[derive(Debug, Clone, PartialEq)]
pub enum Probe {
    /// `launchctl list <label of the variant>`
    LaunchdList(SkhdVariant),
    /// `brew list <formula of the variant>`
    BrewList(SkhdVariant),
    /// `brew --prefix <formula of the variant>`
    BrewPrefix(SkhdVariant),
    /// `which skhd`
    WhichSkhd,
    /// `<binary> --version`
    Version(String),
    /// Whether the application bundle's binary exists.
    AppBundle,
}

/// What a probe gave.
#[derive(Debug, Clone, PartialEq)]
pub enum ProbeOutcome {
    /// The command could not be started.
    CouldNotRun,
    /// The command ran, with its exit status and its output (decoded leniently).
    Ran { success: bool, stdout: String },
    /// Whether the file looked for exists.
    Exists(bool),
}

/// The next thing to do.
#[derive(Debug, Clone, PartialEq)]
pub enum DetectionStep {
    Run(Probe),
    Done(DetectedVariant),
}

pub enum ProbeModel {
    LaunchdList(SkhdVariant),
    BrewList(SkhdVariant),
    BrewPrefix(SkhdVariant),
    WhichSkhd,
    Version(Seq<char>),
    AppBundle,
}

pub enum OutcomeModel {
    CouldNotRun,
    Ran { success: bool, stdout: Seq<char> },
    Exists(bool),
}

pub enum StepModel {
    Run(ProbeModel),
    Done(DetectedModel),
}

impl View for Probe {
    type V = ProbeModel;

    open spec fn view(&self) -> ProbeModel {
        match self {
            Probe::LaunchdList(v) => ProbeModel::LaunchdList(*v),
            Probe::BrewList(v) => ProbeModel::BrewList(*v),
            Probe::BrewPrefix(v) => ProbeModel::BrewPrefix(*v),
            Probe::WhichSkhd => ProbeModel::WhichSkhd,
            Probe::Version(p) => ProbeModel::Version(p@),
            Probe::AppBundle => ProbeModel::AppBundle,
        }
    }
}

impl View for ProbeOutcome {
    type V = OutcomeModel;

    open spec fn view(&self) -> OutcomeModel {
        match self {
            ProbeOutcome::CouldNotRun => OutcomeModel::CouldNotRun,
            ProbeOutcome::Ran { success, stdout } => OutcomeModel::Ran {
                success: *success,
                stdout: stdout@,
            },
            ProbeOutcome::Exists(b) => OutcomeModel::Exists(*b),
        }
    }
}

impl View for DetectionStep {
    type V = StepModel;

    open spec fn view(&self) -> StepModel {
        match self {
            DetectionStep::Run(p) => StepModel::Run(p@),
            DetectionStep::Done(d) => StepModel::Done(d@),
        }
    }
}

/// The Homebrew formula of a variant.
pub open spec fn spec_formula(v: SkhdVariant) -> Seq<char> {
    match v {
        SkhdVariant::Original => "skhd"@,
        SkhdVariant::Zig => "skhd-zig"@,
    }
}

impl SkhdVariant {
    /// The Homebrew formula that installs this variant.
    pub fn formula(&self) -> (r: &'static str)
        ensures
            r@ == spec_formula(*self),
    {
        match self {
            SkhdVariant::Original => "skhd",
            SkhdVariant::Zig => "skhd-zig",
        }
    }
}

pub open spec fn spec_app_bundle_binary() -> Seq<char> {
    "/Applications/skhd.app/Contents/MacOS/skhd"@
}

/// Where the skhd.zig application bundle keeps its binary.
pub fn app_bundle_binary() -> (r: &'static str)
    ensures
        r@ == spec_app_bundle_binary(),
{
    "/Applications/skhd.app/Contents/MacOS/skhd"
}

/// The lower-case form of a string, as `str::to_lowercase` gives it.
pub uninterp spec fn lowercase_of(s: Seq<char>) -> Seq<char>;

/// Calls `str::to_lowercase`; the contract names its result `lowercase_of` of the argument.
#[verifier::external_body]
fn lowercase(s: &str) -> (r: String)
    ensures
        r@ == lowercase_of(s@),
{
    s.to_lowercase()
}

pub open spec fn trim_seq(s: Seq<char>) -> Seq<char> {
    s.subrange(trimmed(s, 0, s.len() as int).0, trimmed(s, 0, s.len() as int).1)
}

/// Whether `--version` output names skhd.zig.
pub open spec fn names_zig(version_output: Seq<char>) -> bool {
    let l = lowercase_of(version_output);
    seq_contains(l, "zig"@) || seq_contains(l, "skhd.zig"@)
}

pub open spec fn found(
    v: SkhdVariant,
    binary: Option<Seq<char>>,
    source: DetectionSource,
) -> StepModel {
    StepModel::Done(
        DetectedModel {
            variant: Some(v),
            binary_path: binary,
            plist_label: Some(spec_plist_label(v)),
            source,
        },
    )
}

pub open spec fn nothing_found() -> StepModel {
    StepModel::Done(
        DetectedModel {
            variant: None,
            binary_path: None,
            plist_label: None,
            source: DetectionSource::Undetected,
        },
    )
}

/// Where detection goes from probe `p` with outcome `o`.
pub open spec fn spec_step(p: ProbeModel, o: OutcomeModel) -> StepModel {
    let ok = o matches OutcomeModel::Ran { success, .. } && success;
    let ran = o is Ran;
    match p {
        ProbeModel::LaunchdList(SkhdVariant::Zig) => if ok {
            found(SkhdVariant::Zig, None, DetectionSource::Running)
        } else if ran {
            StepModel::Run(ProbeModel::LaunchdList(SkhdVariant::Original))
        } else {
            StepModel::Run(ProbeModel::BrewList(SkhdVariant::Zig))
        },
        ProbeModel::LaunchdList(SkhdVariant::Original) => if ok {
            found(SkhdVariant::Original, None, DetectionSource::Running)
        } else {
            StepModel::Run(ProbeModel::BrewList(SkhdVariant::Zig))
        },
        ProbeModel::BrewList(SkhdVariant::Zig) => if ok {
            StepModel::Run(ProbeModel::BrewPrefix(SkhdVariant::Zig))
        } else if ran {
            StepModel::Run(ProbeModel::BrewList(SkhdVariant::Original))
        } else {
            StepModel::Run(ProbeModel::WhichSkhd)
        },
        ProbeModel::BrewList(SkhdVariant::Original) => if ok {
            StepModel::Run(ProbeModel::BrewPrefix(SkhdVariant::Original))
        } else {
            StepModel::Run(ProbeModel::WhichSkhd)
        },
        ProbeModel::BrewPrefix(v) => match o {
            OutcomeModel::Ran { stdout, .. } => found(
                v,
                Some(trim_seq(stdout) + "/bin/skhd"@),
                DetectionSource::Homebrew,
            ),
            _ => StepModel::Run(ProbeModel::WhichSkhd),
        },
        ProbeModel::WhichSkhd => match o {
            OutcomeModel::Ran { success, stdout } => if success && trim_seq(stdout).len() > 0 {
                StepModel::Run(ProbeModel::Version(trim_seq(stdout)))
            } else {
                StepModel::Run(ProbeModel::AppBundle)
            },
            _ => StepModel::Run(ProbeModel::AppBundle),
        },
        ProbeModel::Version(path) => match o {
            OutcomeModel::Ran { stdout, .. } => if names_zig(stdout) {
                found(SkhdVariant::Zig, Some(path), DetectionSource::Path)
            } else {
                found(SkhdVariant::Original, Some(path), DetectionSource::Path)
            },
            _ => StepModel::Run(ProbeModel::AppBundle),
        },
        ProbeModel::AppBundle => if o == OutcomeModel::Exists(true) {
            found(SkhdVariant::Zig, Some(spec_app_bundle_binary()), DetectionSource::AppBundle)
        } else {
            nothing_found()
        },
    }
}

/// The first probe: is an skhd.zig launchd job loaded?
pub fn detection_start() -> (r: DetectionStep)
    ensures
        r@ == StepModel::Run(ProbeModel::LaunchdList(SkhdVariant::Zig)),
{
    DetectionStep::Run(Probe::LaunchdList(SkhdVariant::Zig))
}

fn detected(v: SkhdVariant, binary: Option<String>, source: DetectionSource) -> (r: DetectionStep)
    ensures
        r@ == found(v, binary.deep_view(), source),
{
    DetectionStep::Done(
        DetectedVariant::new(Some(v), binary, Some(owned(v.plist_label())), source),
    )
}

/// Where detection goes after probe `probe` gave `outcome`.
pub fn detection_step(probe: &Probe, outcome: &ProbeOutcome) -> (r: DetectionStep)
    ensures
        r@ == spec_step(probe@, outcome@),
{
    let ok = match outcome {
        ProbeOutcome::Ran { success, .. } => *success,
        _ => false,
    };
    let ran = match outcome {
        ProbeOutcome::Ran { .. } => true,
        _ => false,
    };
    match probe {
        Probe::LaunchdList(SkhdVariant::Zig) => if ok {
            detected(SkhdVariant::Zig, None, DetectionSource::Running)
        } else if ran {
            DetectionStep::Run(Probe::LaunchdList(SkhdVariant::Original))
        } else {
            DetectionStep::Run(Probe::BrewList(SkhdVariant::Zig))
        },
        Probe::LaunchdList(SkhdVariant::Original) => if ok {
            detected(SkhdVariant::Original, None, DetectionSource::Running)
        } else {
            DetectionStep::Run(Probe::BrewList(SkhdVariant::Zig))
        },
        Probe::BrewList(SkhdVariant::Zig) => if ok {
            DetectionStep::Run(Probe::BrewPrefix(SkhdVariant::Zig))
        } else if ran {
            DetectionStep::Run(Probe::BrewList(SkhdVariant::Original))
        } else {
            DetectionStep::Run(Probe::WhichSkhd)
        },
        Probe::BrewList(SkhdVariant::Original) => if ok {
            DetectionStep::Run(Probe::BrewPrefix(SkhdVariant::Original))
        } else {
            DetectionStep::Run(Probe::WhichSkhd)
        },
        Probe::BrewPrefix(v) => match outcome {
            ProbeOutcome::Ran { stdout, .. } => {
                let prefix = trim(stdout.as_str());
                let binary = prefix.concat("/bin/skhd");
                detected(*v, Some(binary), DetectionSource::Homebrew)
            },
            _ => DetectionStep::Run(Probe::WhichSkhd),
        },
        Probe::WhichSkhd => match outcome {
            ProbeOutcome::Ran { success, stdout } => {
                let path = trim(stdout.as_str());
                if *success && path.as_str().unicode_len() > 0 {
                    DetectionStep::Run(Probe::Version(path))
                } else {
                    DetectionStep::Run(Probe::AppBundle)
                }
            },
            _ => DetectionStep::Run(Probe::AppBundle),
        },
        Probe::Version(path) => match outcome {
            ProbeOutcome::Ran { stdout, .. } => {
                let l = lowercase(stdout.as_str());
                if contains_str(l.as_str(), "zig") || contains_str(l.as_str(), "skhd.zig") {
                    detected(SkhdVariant::Zig, Some(path.clone()), DetectionSource::Path)
                } else {
                    detected(SkhdVariant::Original, Some(path.clone()), DetectionSource::Path)
                }
            },
            _ => DetectionStep::Run(Probe::AppBundle),
        },
        Probe::AppBundle => match outcome {
            ProbeOutcome::Exists(true) => detected(
                SkhdVariant::Zig,
                Some(owned(app_bundle_binary())),
                DetectionSource::AppBundle,
            ),
            _ => DetectionStep::Done(DetectedVariant::none()),
        },
    }
}

/// How many probes at most remain once `p` is due.
pub open spec fn remaining_probes(p: ProbeModel) -> nat {
    match p {
        ProbeModel::LaunchdList(SkhdVariant::Zig) => 8,
        ProbeModel::LaunchdList(SkhdVariant::Original) => 7,
        ProbeModel::BrewList(SkhdVariant::Zig) => 6,
        ProbeModel::BrewList(SkhdVariant::Original) => 5,
        ProbeModel::BrewPrefix(_) => 4,
        ProbeModel::WhichSkhd => 3,
        ProbeModel::Version(_) => 2,
        ProbeModel::AppBundle => 1,
    }
}

/// Detection always finishes: every step either gives the result or moves to a
/// probe with fewer probes left after it, so no run takes more than eight probes.
pub proof fn law_detection_finishes(p: ProbeModel, o: OutcomeModel)
    ensures
        spec_step(p, o) matches StepModel::Run(q) ==> remaining_probes(q) < remaining_probes(p),
{
}

/// A loaded launchd job decides detection at once, skhd.zig's before the original's:
/// a running variant is preferred to one that is only installed.
pub proof fn law_running_job_decides(v: SkhdVariant, stdout: Seq<char>)
    ensures
        spec_step(ProbeModel::LaunchdList(v), OutcomeModel::Ran { success: true, stdout })
            == found(v, None, DetectionSource::Running),
{
}

// ------------------------------------------------------------------
// Detection as a whole
// ------------------------------------------------------------------

/// What detection gives when a probe finds variant `v`.
pub open spec fn hit(v: SkhdVariant, binary: Option<Seq<char>>, source: DetectionSource) -> Option<
    DetectedModel,
> {
    Some(
        DetectedModel {
            variant: Some(v),
            binary_path: binary,
            plist_label: Some(spec_plist_label(v)),
            source,
        },
    )
}

pub open spec fn none_detected() -> DetectedModel {
    DetectedModel {
        variant: None,
        binary_path: None,
        plist_label: None,
        source: DetectionSource::Undetected,
    }
}

pub open spec fn ran_ok(o: OutcomeModel) -> bool {
    o matches OutcomeModel::Ran { success, .. } && success
}

/// A loaded launchd job: skhd.zig's, then the original's; nothing when
/// `launchctl` cannot run.
pub open spec fn from_launchd(answer: spec_fn(ProbeModel) -> OutcomeModel) -> Option<DetectedModel> {
    let z = answer(ProbeModel::LaunchdList(SkhdVariant::Zig));
    if !(z is Ran) {
        None
    } else if ran_ok(z) {
        hit(SkhdVariant::Zig, None, DetectionSource::Running)
    } else if ran_ok(answer(ProbeModel::LaunchdList(SkhdVariant::Original))) {
        hit(SkhdVariant::Original, None, DetectionSource::Running)
    } else {
        None
    }
}

/// The binary under the prefix of an installed formula.
pub open spec fn from_prefix(answer: spec_fn(ProbeModel) -> OutcomeModel, v: SkhdVariant) -> Option<
    DetectedModel,
> {
    match answer(ProbeModel::BrewPrefix(v)) {
        OutcomeModel::Ran { stdout, .. } => hit(
            v,
            Some(trim_seq(stdout) + "/bin/skhd"@),
            DetectionSource::Homebrew,
        ),
        _ => None,
    }
}

/// An installed Homebrew formula: skhd-zig, then skhd; nothing when `brew` cannot run.
pub open spec fn from_homebrew(answer: spec_fn(ProbeModel) -> OutcomeModel) -> Option<DetectedModel> {
    let z = answer(ProbeModel::BrewList(SkhdVariant::Zig));
    if !(z is Ran) {
        None
    } else if ran_ok(z) {
        from_prefix(answer, SkhdVariant::Zig)
    } else if ran_ok(answer(ProbeModel::BrewList(SkhdVariant::Original))) {
        from_prefix(answer, SkhdVariant::Original)
    } else {
        None
    }
}

/// An `skhd` on PATH, told apart by its `--version` output.
pub open spec fn from_path(answer: spec_fn(ProbeModel) -> OutcomeModel) -> Option<DetectedModel> {
    match answer(ProbeModel::WhichSkhd) {
        OutcomeModel::Ran { success, stdout } => if success && trim_seq(stdout).len() > 0 {
            let p = trim_seq(stdout);
            match answer(ProbeModel::Version(p)) {
                OutcomeModel::Ran { stdout: out, .. } => hit(
                    if names_zig(out) {
                        SkhdVariant::Zig
                    } else {
                        SkhdVariant::Original
                    },
                    Some(p),
                    DetectionSource::Path,
                ),
                _ => None,
            }
        } else {
            None
        },
        _ => None,
    }
}

/// The skhd.zig application bundle.
pub open spec fn from_app_bundle(answer: spec_fn(ProbeModel) -> OutcomeModel) -> Option<DetectedModel> {
    if answer(ProbeModel::AppBundle) == OutcomeModel::Exists(true) {
        hit(SkhdVariant::Zig, Some(spec_app_bundle_binary()), DetectionSource::AppBundle)
    } else {
        None
    }
}

pub open spec fn or_else(first: Option<DetectedModel>, then: DetectedModel) -> DetectedModel {
    match first {
        Some(d) => d,
        None => then,
    }
}

pub open spec fn after_bundle(answer: spec_fn(ProbeModel) -> OutcomeModel) -> DetectedModel {
    or_else(from_app_bundle(answer), none_detected())
}

pub open spec fn after_path(answer: spec_fn(ProbeModel) -> OutcomeModel) -> DetectedModel {
    or_else(from_path(answer), after_bundle(answer))
}

pub open spec fn after_homebrew(answer: spec_fn(ProbeModel) -> OutcomeModel) -> DetectedModel {
    or_else(from_homebrew(answer), after_path(answer))
}

/// The first hit among the launchd jobs, the Homebrew formulae, the `skhd` on
/// PATH and the application bundle, in that order; nothing if none hits.
pub open spec fn first_hit(answer: spec_fn(ProbeModel) -> OutcomeModel) -> DetectedModel {
    or_else(from_launchd(answer), after_homebrew(answer))
}

/// Where detection ends from probe `p` when each probe is answered by `answer`,
/// within `fuel` probes.
pub open spec fn run_detection(
    p: ProbeModel,
    answer: spec_fn(ProbeModel) -> OutcomeModel,
    fuel: nat,
) -> DetectedModel
    decreases fuel,
{
    if fuel == 0 {
        none_detected()
    } else {
        match spec_step(p, answer(p)) {
            StepModel::Done(d) => d,
            StepModel::Run(q) => run_detection(q, answer, (fuel - 1) as nat),
        }
    }
}

proof fn lemma_run_bundle(answer: spec_fn(ProbeModel) -> OutcomeModel, fuel: nat)
    requires
        fuel >= 1,
    ensures
        run_detection(ProbeModel::AppBundle, answer, fuel) == after_bundle(answer),
{
}

proof fn lemma_run_path(answer: spec_fn(ProbeModel) -> OutcomeModel, fuel: nat)
    requires
        fuel >= 3,
    ensures
        run_detection(ProbeModel::WhichSkhd, answer, fuel) == after_path(answer),
{
    lemma_run_bundle(answer, (fuel - 1) as nat);
    lemma_run_bundle(answer, (fuel - 2) as nat);
    if let OutcomeModel::Ran { success, stdout } = answer(ProbeModel::WhichSkhd) {
        if success && trim_seq(stdout).len() > 0 {
            let q = ProbeModel::Version(trim_seq(stdout));
            assert(run_detection(ProbeModel::WhichSkhd, answer, fuel) == run_detection(
                q,
                answer,
                (fuel - 1) as nat,
            ));
        }
    }
}

proof fn lemma_run_prefix(answer: spec_fn(ProbeModel) -> OutcomeModel, v: SkhdVariant, fuel: nat)
    requires
        fuel >= 4,
    ensures
        run_detection(ProbeModel::BrewPrefix(v), answer, fuel) == or_else(
            from_prefix(answer, v),
            after_path(answer),
        ),
{
    lemma_run_path(answer, (fuel - 1) as nat);
}

proof fn lemma_run_homebrew(answer: spec_fn(ProbeModel) -> OutcomeModel, fuel: nat)
    requires
        fuel >= 6,
    ensures
        run_detection(ProbeModel::BrewList(SkhdVariant::Zig), answer, fuel) == after_homebrew(answer),
{
    lemma_run_path(answer, (fuel - 1) as nat);
    lemma_run_path(answer, (fuel - 2) as nat);
    lemma_run_prefix(answer, SkhdVariant::Zig, (fuel - 1) as nat);
    lemma_run_prefix(answer, SkhdVariant::Original, (fuel - 2) as nat);
    assert(run_detection(ProbeModel::BrewList(SkhdVariant::Original), answer, (fuel - 1) as nat)
        == if ran_ok(answer(ProbeModel::BrewList(SkhdVariant::Original))) {
        run_detection(ProbeModel::BrewPrefix(SkhdVariant::Original), answer, (fuel - 2) as nat)
    } else {
        run_detection(ProbeModel::WhichSkhd, answer, (fuel - 2) as nat)
    });
}

/// Detection stops at the first hit, probing in this order: a loaded launchd job
/// (skhd.zig's, then the original's), an installed Homebrew formula (skhd-zig,
/// then skhd), an `skhd` on PATH told apart by its `--version` output, and the
/// skhd.zig application bundle; nothing is detected if none hits. A running job
/// thus wins over an installed formula, a binary on PATH or the bundle.
pub proof fn law_detection_stops_at_first_hit(answer: spec_fn(ProbeModel) -> OutcomeModel)
    ensures
        run_detection(ProbeModel::LaunchdList(SkhdVariant::Zig), answer, 8) == first_hit(answer),
{
    lemma_run_homebrew(answer, 7);
    lemma_run_homebrew(answer, 6);
    assert(run_detection(ProbeModel::LaunchdList(SkhdVariant::Original), answer, 7) == if ran_ok(
        answer(ProbeModel::LaunchdList(SkhdVariant::Original)),
    ) {
        or_else(hit(SkhdVariant::Original, None, DetectionSource::Running), none_detected())
    } else {
        run_detection(ProbeModel::BrewList(SkhdVariant::Zig), answer, 6)
    });
}

} // verus!

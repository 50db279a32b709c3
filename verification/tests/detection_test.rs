use keybinder::detect::{detection_start, detection_step, DetectionStep, Probe, ProbeOutcome};
use keybinder::models::{DetectedVariant, DetectionSource, SkhdVariant};

fn ran(success: bool, stdout: &str) -> ProbeOutcome {
    ProbeOutcome::Ran { success, stdout: stdout.to_string() }
}

/// Runs detection against fixed answers, in the order the probes are asked.
fn detect_with(answers: &[(Probe, ProbeOutcome)]) -> (DetectedVariant, Vec<Probe>) {
    let mut asked = Vec::new();
    let mut step = detection_start();
    loop {
        match step {
            DetectionStep::Done(d) => return (d, asked),
            DetectionStep::Run(p) => {
                let outcome = answers
                    .iter()
                    .find(|(q, _)| *q == p)
                    .map(|(_, o)| o.clone())
                    .unwrap_or(ProbeOutcome::CouldNotRun);
                asked.push(p.clone());
                step = detection_step(&p, &outcome);
            }
        }
    }
}

#[test]
fn running_zig_job_wins_at_once() {
    let (d, asked) = detect_with(&[
        (Probe::LaunchdList(SkhdVariant::Zig), ran(true, "")),
        (Probe::LaunchdList(SkhdVariant::Original), ran(true, "")),
    ]);
    assert_eq!(asked.len(), 1);
    assert_eq!(
        d,
        DetectedVariant::new(
            Some(SkhdVariant::Zig),
            None,
            Some("com.jackielii.skhd".to_string()),
            DetectionSource::Running
        )
    );
}

#[test]
fn running_original_job_is_second() {
    let (d, _) = detect_with(&[
        (Probe::LaunchdList(SkhdVariant::Zig), ran(false, "")),
        (Probe::LaunchdList(SkhdVariant::Original), ran(true, "")),
    ]);
    assert_eq!(d.variant, Some(SkhdVariant::Original));
    assert_eq!(d.source, DetectionSource::Running);
    assert_eq!(d.plist_label.as_deref(), Some("com.koekeishiya.skhd"));
}

#[test]
fn homebrew_prefix_gives_the_binary() {
    let (d, asked) = detect_with(&[
        (Probe::LaunchdList(SkhdVariant::Zig), ran(false, "")),
        (Probe::LaunchdList(SkhdVariant::Original), ran(false, "")),
        (Probe::BrewList(SkhdVariant::Zig), ran(true, "")),
        (Probe::BrewPrefix(SkhdVariant::Zig), ran(true, "/opt/homebrew/opt/skhd-zig\n")),
    ]);
    assert_eq!(asked.len(), 4);
    assert_eq!(d.variant, Some(SkhdVariant::Zig));
    assert_eq!(d.binary_path.as_deref(), Some("/opt/homebrew/opt/skhd-zig/bin/skhd"));
    assert_eq!(d.source, DetectionSource::Homebrew);
}

#[test]
fn launchctl_that_cannot_run_skips_to_homebrew() {
    let (d, asked) = detect_with(&[
        (Probe::BrewList(SkhdVariant::Zig), ran(false, "")),
        (Probe::BrewList(SkhdVariant::Original), ran(true, "")),
        (Probe::BrewPrefix(SkhdVariant::Original), ran(true, "/usr/local/opt/skhd")),
    ]);
    assert_eq!(asked[1], Probe::BrewList(SkhdVariant::Zig));
    assert_eq!(d.variant, Some(SkhdVariant::Original));
    assert_eq!(d.binary_path.as_deref(), Some("/usr/local/opt/skhd/bin/skhd"));
}

#[test]
fn version_output_fingerprints_zig_in_any_case() {
    let (d, _) = detect_with(&[
        (Probe::LaunchdList(SkhdVariant::Zig), ran(false, "")),
        (Probe::LaunchdList(SkhdVariant::Original), ran(false, "")),
        (Probe::BrewList(SkhdVariant::Zig), ran(false, "")),
        (Probe::BrewList(SkhdVariant::Original), ran(false, "")),
        (Probe::WhichSkhd, ran(true, " /usr/local/bin/skhd \n")),
        (Probe::Version("/usr/local/bin/skhd".to_string()), ran(true, "SKHD.ZIG v0.1.0")),
    ]);
    assert_eq!(d.variant, Some(SkhdVariant::Zig));
    assert_eq!(d.binary_path.as_deref(), Some("/usr/local/bin/skhd"));
    assert_eq!(d.source, DetectionSource::Path);
}

#[test]
fn version_output_without_zig_is_the_original() {
    let (d, _) = detect_with(&[
        (Probe::WhichSkhd, ran(true, "/usr/local/bin/skhd")),
        (Probe::Version("/usr/local/bin/skhd".to_string()), ran(true, "skhd-v0.3.9")),
    ]);
    assert_eq!(d.variant, Some(SkhdVariant::Original));
    assert_eq!(d.plist_label.as_deref(), Some("com.koekeishiya.skhd"));
}

#[test]
fn app_bundle_is_the_last_resort() {
    let (d, asked) = detect_with(&[(Probe::AppBundle, ProbeOutcome::Exists(true))]);
    assert_eq!(asked.last(), Some(&Probe::AppBundle));
    assert_eq!(
        d.binary_path.as_deref(),
        Some("/Applications/skhd.app/Contents/MacOS/skhd")
    );
    assert_eq!(d.source, DetectionSource::AppBundle);
}

#[test]
fn nothing_found_is_none() {
    let (d, asked) = detect_with(&[(Probe::WhichSkhd, ran(true, "   "))]);
    assert!(asked.len() <= 8);
    assert_eq!(d, DetectedVariant::none());
}

use keybinder::models::{ServiceState, SkhdVariant};
use keybinder::status::{status_begin, status_step, StatusAction, StatusEvent, StatusReport, StatusTask};

fn exited(success: bool, stdout: &str, stderr: &str) -> StatusEvent {
    StatusEvent::Exited { success, stdout: stdout.to_string(), stderr: stderr.to_string() }
}

fn env(home: Option<&str>, xdg: Option<&str>) -> StatusEvent {
    StatusEvent::Env { home: home.map(str::to_string), xdg_config_home: xdg.map(str::to_string) }
}

fn step(task: StatusTask, event: StatusEvent) -> (StatusTask, StatusAction) {
    assert!(task.accepts(&event), "{:?} does not wait for {:?}", task.stage, event);
    status_step(&task, &event)
}

fn expect_run(action: &StatusAction, argv: &[&str]) {
    match action {
        StatusAction::Run(got) => assert_eq!(got, &argv.iter().map(|s| s.to_string()).collect::<Vec<_>>()),
        other => panic!("expected to run {:?}, got {:?}", argv, other),
    }
}

fn expect_files(action: &StatusAction, paths: &[&str]) {
    match action {
        StatusAction::CheckFiles(got) => {
            assert_eq!(got, &paths.iter().map(|s| s.to_string()).collect::<Vec<_>>())
        }
        other => panic!("expected to check {:?}, got {:?}", paths, other),
    }
}

fn expect_report(action: StatusAction) -> StatusReport {
    match action {
        StatusAction::Report(r) => r,
        other => panic!("expected a report, got {:?}", other),
    }
}

const LIST: &str = "PID\tStatus\tLabel\n123\t0\tcom.koekeishiya.skhd\n-\t0\tcom.apple.other\n";

#[test]
fn listed_original_job_is_reported_with_its_pid_and_config() {
    let (t, a) = status_begin(SkhdVariant::Original, None);
    expect_run(&a, &["launchctl", "list"]);
    let (t, a) = step(t, exited(true, LIST, ""));
    assert!(matches!(a, StatusAction::ReadEnv));
    let (t, a) = step(t, env(Some("/h"), Some("/x")));
    expect_files(&a, &["/h/.config/skhd/skhdrc", "/h/.skhdrc"]);
    let (_, a) = step(t, StatusEvent::Existence(vec![false, true]));
    assert_eq!(
        expect_report(a),
        StatusReport {
            state: ServiceState::Running,
            pid: Some(123),
            config_path: Some("/h/.skhdrc".to_string()),
            error_message: None,
        }
    );
}

#[test]
fn unlisted_original_job_is_unknown() {
    let (t, _) = status_begin(SkhdVariant::Original, Some("/b/skhd".to_string()));
    let (_, a) = step(t, exited(true, "PID\tStatus\tLabel\n1\t0\tcom.jackielii.skhd\n", ""));
    assert_eq!(
        expect_report(a),
        StatusReport {
            state: ServiceState::Unknown,
            pid: None,
            config_path: None,
            error_message: Some(
                "skhd service not found in launchctl list (label: com.koekeishiya.skhd).".to_string()
            ),
        }
    );
}

#[test]
fn unlisted_zig_job_asks_the_detected_binary() {
    let (t, _) = status_begin(SkhdVariant::Zig, Some("/b/skhd".to_string()));
    let (t, a) = step(t, exited(true, LIST, ""));
    expect_run(&a, &["/b/skhd", "--status"]);
    let (t, a) = step(t, exited(true, "skhd is running\n", ""));
    assert!(matches!(a, StatusAction::ReadEnv));
    let (_, a) = step(t, env(None, None));
    assert_eq!(
        expect_report(a),
        StatusReport { state: ServiceState::Running, pid: None, config_path: None, error_message: None }
    );
}

#[test]
fn unlisted_zig_job_without_binary_is_not_found() {
    let (t, _) = status_begin(SkhdVariant::Zig, None);
    let (t, a) = step(t, exited(true, "", ""));
    expect_run(&a, &["which", "skhd"]);
    let (t, a) = step(t, exited(false, "", ""));
    assert!(matches!(a, StatusAction::ReadEnv));
    let (t, a) = step(t, env(Some("/h"), Some("/x")));
    expect_files(&a, &["/x/skhd/skhdrc", "/h/.config/skhd/skhdrc", "/h/.skhdrc"]);
    let (_, a) = step(t, StatusEvent::Existence(vec![true, false, true]));
    assert_eq!(
        expect_report(a),
        StatusReport {
            state: ServiceState::Unknown,
            pid: None,
            config_path: Some("/x/skhd/skhdrc".to_string()),
            error_message: Some(
                "skhd.zig service not found. Install skhd.zig and register the service with: skhd --install-service && skhd --start-service"
                    .to_string()
            ),
        }
    );
}

#[test]
fn zig_binary_on_path_is_asked_for_its_status() {
    let (t, _) = status_begin(SkhdVariant::Zig, None);
    let (t, _) = step(t, exited(true, "", ""));
    let (t, a) = step(t, exited(true, " /usr/local/bin/skhd \n", ""));
    expect_run(&a, &["/usr/local/bin/skhd", "--status"]);
    let (t, _) = step(t, exited(false, "", "boom\n"));
    let (_, a) = step(t, env(None, None));
    assert_eq!(
        expect_report(a),
        StatusReport {
            state: ServiceState::Error,
            pid: None,
            config_path: None,
            error_message: Some("skhd --status failed: boom".to_string()),
        }
    );
}

#[test]
fn listed_zig_job_in_error_keeps_its_exit_code() {
    let (t, _) = status_begin(SkhdVariant::Zig, None);
    let (t, a) = step(t, exited(true, "77\t78\tcom.jackielii.skhd\n", ""));
    assert!(matches!(a, StatusAction::ReadEnv));
    let (_, a) = step(t, env(None, None));
    assert_eq!(
        expect_report(a),
        StatusReport {
            state: ServiceState::Error,
            pid: Some(77),
            config_path: None,
            error_message: Some("Service exited with code 78".to_string()),
        }
    );
}

#[test]
fn launchctl_that_cannot_run_fails_the_reading() {
    let (t, _) = status_begin(SkhdVariant::Original, None);
    let (_, a) = step(t, StatusEvent::CouldNotRun("boom".to_string()));
    match a {
        StatusAction::Fail(m) => assert_eq!(
            m,
            "skhd: Failed to execute launchctl command: boom. Make sure you're running on macOS and launchctl is available."
        ),
        other => panic!("expected a failure, got {:?}", other),
    }
}

#[test]
fn existence_answers_must_match_the_paths_asked() {
    let (t, _) = status_begin(SkhdVariant::Original, None);
    let (t, _) = step(t, exited(true, LIST, ""));
    let (t, _) = step(t, env(Some("/h"), None));
    assert!(!t.accepts(&StatusEvent::Existence(vec![true])));
    assert!(t.accepts(&StatusEvent::Existence(vec![true, false])));
}

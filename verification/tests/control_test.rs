use keybinder::control::{service_begin, service_step, ServiceAction, ServiceEvent, ServiceOp, ServiceTask};
use keybinder::models::{ServiceState, SkhdVariant};

fn exited(success: bool, stdout: &str, stderr: &str) -> ServiceEvent {
    ServiceEvent::Exited { success, stdout: stdout.to_string(), stderr: stderr.to_string() }
}

fn step(task: ServiceTask, event: ServiceEvent) -> (ServiceTask, ServiceAction) {
    assert!(task.accepts(&event), "{:?} does not wait for {:?}", task.stage, event);
    service_step(&task, &event)
}

fn expect_run(action: &ServiceAction, argv: &[&str]) {
    match action {
        ServiceAction::Run(got) => assert_eq!(got, &argv.iter().map(|s| s.to_string()).collect::<Vec<_>>()),
        other => panic!("expected to run {:?}, got {:?}", argv, other),
    }
}

fn expect_finish(action: ServiceAction) -> Result<(), String> {
    match action {
        ServiceAction::Finish(r) => r,
        other => panic!("expected the end, got {:?}", other),
    }
}

const PLIST: &str = "/Users/t/Library/LaunchAgents/com.koekeishiya.skhd.plist";

#[test]
fn reload_runs_skhd_reload_for_both_variants() {
    let (t, a) = service_begin(ServiceOp::Reload, SkhdVariant::Original, None);
    expect_run(&a, &["skhd", "--reload"]);
    let (_, a) = step(t, exited(true, "", ""));
    assert_eq!(expect_finish(a), Ok(()));

    let (t, a) = service_begin(ServiceOp::Reload, SkhdVariant::Zig, Some("/opt/bin/skhd".to_string()));
    expect_run(&a, &["/opt/bin/skhd", "--reload"]);
    let (_, a) = step(t, exited(false, "", " not running\n"));
    assert_eq!(
        expect_finish(a),
        Err("skhd.zig: Failed to reload service: not running. The service may not be running. Try starting it first."
            .to_string())
    );
}

#[test]
fn original_start_bootstraps_the_plist_then_checks_the_status() {
    let (t, a) = service_begin(ServiceOp::Start, SkhdVariant::Original, None);
    assert!(matches!(a, ServiceAction::ReadHome));
    let (t, a) = step(t, ServiceEvent::Home(Some("/Users/t".to_string())));
    expect_run(&a, &["launchctl", "bootstrap", "gui/$(id - u)", PLIST]);
    let (t, a) = step(t, exited(false, "", "already loaded"));
    expect_run(&a, &["launchctl", "load", PLIST]);
    let (t, a) = step(t, ServiceEvent::CouldNotRun("gone".to_string()));
    assert!(matches!(a, ServiceAction::Wait(2000)));
    let (t, a) = step(t, ServiceEvent::Waited);
    assert!(matches!(a, ServiceAction::CheckStatus));
    let (_, a) = step(t, ServiceEvent::Status(Ok((ServiceState::Running, None))));
    assert_eq!(expect_finish(a), Ok(()));
}

#[test]
fn original_stop_reports_a_service_still_running() {
    let (t, _) = service_begin(ServiceOp::Stop, SkhdVariant::Original, None);
    let (t, a) = step(t, ServiceEvent::Home(Some("/Users/t".to_string())));
    expect_run(&a, &["launchctl", "bootout", "gui/$(id - u)", PLIST]);
    let (t, a) = step(t, exited(true, "", ""));
    assert!(matches!(a, ServiceAction::Wait(500)));
    let (t, _) = step(t, ServiceEvent::Waited);
    let (_, a) = step(t, ServiceEvent::Status(Ok((ServiceState::Running, None))));
    assert_eq!(
        expect_finish(a),
        Err("skhd: Failed to stop service. The service is still running.".to_string())
    );
}

#[test]
fn original_start_without_home_fails() {
    let (t, _) = service_begin(ServiceOp::Start, SkhdVariant::Original, None);
    let (_, a) = step(t, ServiceEvent::Home(None));
    assert_eq!(
        expect_finish(a),
        Err("skhd: Failed to get HOME environment variable. This is required to locate the skhd plist file."
            .to_string())
    );
}

#[test]
fn original_restart_falls_back_to_stop_then_start() {
    let (t, a) = service_begin(ServiceOp::Restart, SkhdVariant::Original, None);
    expect_run(&a, &["brew", "services", "restart", "skhd"]);
    let (t2, a) = step(t.clone(), exited(false, "", " Error: no formula\n"));
    assert!(matches!(a, ServiceAction::Perform(ServiceOp::Stop)));
    let (_, a) = step(t2.clone(), ServiceEvent::Performed(Err("stop failed".to_string())));
    assert_eq!(
        expect_finish(a),
        Err("skhd: Failed to restart service: Error: no formula.".to_string())
    );
    let (t3, a) = step(t2, ServiceEvent::Performed(Ok(())));
    assert!(matches!(a, ServiceAction::Perform(ServiceOp::Start)));
    let (_, a) = step(t3, ServiceEvent::Performed(Err("skhd: Service failed to start.".to_string())));
    assert_eq!(expect_finish(a), Err("skhd: Service failed to start.".to_string()));
}

#[test]
fn original_install_and_uninstall_are_refused() {
    let (_, a) = service_begin(ServiceOp::Install, SkhdVariant::Original, None);
    assert_eq!(
        expect_finish(a),
        Err("skhd: Service installation is handled via the plist file. Install skhd via Homebrew and use 'brew services start skhd'."
            .to_string())
    );
    let (_, a) = service_begin(ServiceOp::Uninstall, SkhdVariant::Original, None);
    assert_eq!(
        expect_finish(a),
        Err("skhd: Service uninstallation is handled via the plist file. Stop skhd with 'brew services stop skhd'."
            .to_string())
    );
}

#[test]
fn zig_without_detected_binary_looks_on_path() {
    let (t, a) = service_begin(ServiceOp::Start, SkhdVariant::Zig, None);
    expect_run(&a, &["which", "skhd"]);
    let (t2, a) = step(t.clone(), exited(true, "/usr/local/bin/skhd\n", ""));
    expect_run(&a, &["/usr/local/bin/skhd", "--start-service"]);
    let (_, a) = step(t2, exited(false, "", "not registered"));
    assert_eq!(
        expect_finish(a),
        Err("skhd.zig: Failed to start service: not registered. Check that skhd.zig is installed and the service is registered."
            .to_string())
    );
    let (_, a) = step(t.clone(), exited(true, "  \n", ""));
    assert_eq!(expect_finish(a), Err("skhd.zig: skhd not found in PATH".to_string()));
    let (_, a) = step(t, ServiceEvent::CouldNotRun("no which".to_string()));
    assert_eq!(expect_finish(a), Err("skhd.zig: Failed to find skhd in PATH: no which".to_string()));
}

#[test]
fn zig_commands_that_cannot_start_name_the_variant() {
    let (t, a) = service_begin(ServiceOp::Install, SkhdVariant::Zig, Some("/b/skhd".to_string()));
    assert!(matches!(a, ServiceAction::ReadEnv));
    let (t, a) = step(t, ServiceEvent::Env { home: None, xdg_config_home: None });
    expect_run(&a, &["/b/skhd", "--install-service"]);
    let (_, a) = step(t, ServiceEvent::CouldNotRun("No such file".to_string()));
    assert_eq!(
        expect_finish(a),
        Err("skhd.zig: Failed to execute skhd --install-service: No such file. Make sure skhd.zig is installed."
            .to_string())
    );
    let (t, _) = service_begin(ServiceOp::Stop, SkhdVariant::Zig, Some("/b/skhd".to_string()));
    let (_, a) = step(t, exited(false, "", "oops\n"));
    assert_eq!(
        expect_finish(a),
        Err("skhd.zig: Failed to stop service: oops. The service may not be running.".to_string())
    );
    let (t, _) = service_begin(ServiceOp::Restart, SkhdVariant::Original, None);
    let (_, a) = step(t, ServiceEvent::CouldNotRun("denied".to_string()));
    assert_eq!(
        expect_finish(a),
        Err("skhd: Failed to execute brew services restart: denied. Make sure Homebrew is installed and skhd was installed via Homebrew."
            .to_string())
    );
}

#[test]
fn zig_restart_is_judged_on_the_status() {
    let (t, a) = service_begin(ServiceOp::Restart, SkhdVariant::Zig, Some("/b/skhd".to_string()));
    expect_run(&a, &["/b/skhd", "--restart-service"]);
    let (t, a) = step(t, exited(true, "", ""));
    assert!(matches!(a, ServiceAction::Wait(2000)));
    let (t, _) = step(t, ServiceEvent::Waited);
    let (_, a) = step(t.clone(), ServiceEvent::Status(Ok((ServiceState::Stopped, None))));
    assert_eq!(
        expect_finish(a),
        Err("skhd.zig: Service failed to restart. Check the service status.".to_string())
    );
    let (_, a) = step(t, ServiceEvent::Status(Err("launchctl missing".to_string())));
    assert_eq!(expect_finish(a), Err("launchctl missing".to_string()));
}

#[test]
fn events_out_of_order_are_not_accepted() {
    let (t, _) = service_begin(ServiceOp::Start, SkhdVariant::Original, None);
    assert!(!t.accepts(&ServiceEvent::Waited));
    assert!(t.accepts(&ServiceEvent::Home(None)));
}

fn install_after_reading(text: Option<&str>) -> (ServiceTask, ServiceAction) {
    let (t, a) = service_begin(ServiceOp::Install, SkhdVariant::Zig, None);
    assert!(matches!(a, ServiceAction::ReadEnv));
    let (t, a) = step(t, ServiceEvent::Env { home: Some("/h".to_string()), xdg_config_home: None });
    match &a {
        ServiceAction::CheckFiles(paths) => assert_eq!(
            paths,
            &vec!["/h/.config/skhd/skhdrc".to_string(), "/h/.config/skhd/skhdrc".to_string(), "/h/.skhdrc".to_string()]
        ),
        other => panic!("expected to check files, got {:?}", other),
    }
    let (t, a) = step(t, ServiceEvent::Existence(vec![false, true, true]));
    match &a {
        ServiceAction::ReadFile(p) => assert_eq!(p, "/h/.config/skhd/skhdrc"),
        other => panic!("expected to read the configuration, got {:?}", other),
    }
    step(t, ServiceEvent::FileText(text.map(str::to_string)))
}

#[test]
fn zig_install_is_refused_for_block_remap_rules() {
    let config = ".remap caps_lock [device builtin] {\n  tap: escape\n  hold: lctrl\n}\ncmd - a : echo a\n";
    let (_, a) = install_after_reading(Some(config));
    assert_eq!(
        expect_finish(a),
        Err("skhd.zig: The configuration has block-form .remap rules, which may need the privileged skhd-grabber. Run skhd --install-service in a terminal to review that step."
            .to_string())
    );
}

#[test]
fn zig_install_goes_ahead_without_block_remap_rules() {
    let (_, a) = install_after_reading(Some(".remap caps_lock : escape\ncmd - a : echo a\n"));
    expect_run(&a, &["which", "skhd"]);
    let (_, a) = install_after_reading(None);
    expect_run(&a, &["which", "skhd"]);
    let (t, a) = service_begin(ServiceOp::Install, SkhdVariant::Zig, Some("/b/skhd".to_string()));
    assert!(matches!(a, ServiceAction::ReadEnv));
    let (t, _) = step(t, ServiceEvent::Env { home: Some("/h".to_string()), xdg_config_home: Some("/x".to_string()) });
    let (_, a) = step(t, ServiceEvent::Existence(vec![false, false, false]));
    expect_run(&a, &["/b/skhd", "--install-service"]);
}

#[test]
fn zig_stop_without_a_binary_names_the_variant() {
    let (t, _) = service_begin(ServiceOp::Stop, SkhdVariant::Zig, None);
    let (_, a) = step(t, exited(false, "", ""));
    assert_eq!(expect_finish(a), Err("skhd.zig: skhd not found in PATH".to_string()));
    let (t, _) = service_begin(ServiceOp::Reload, SkhdVariant::Zig, None);
    let (_, a) = step(t, exited(true, "\n", ""));
    assert_eq!(expect_finish(a), Err("skhd.zig: skhd not found in PATH".to_string()));
}

#[test]
fn start_that_ends_in_error_names_the_variant() {
    let (t, _) = service_begin(ServiceOp::Start, SkhdVariant::Zig, Some("/b/skhd".to_string()));
    let (t, _) = step(t, exited(true, "", ""));
    let (t, _) = step(t, ServiceEvent::Waited);
    let (_, a) = step(t, ServiceEvent::Status(Ok((ServiceState::Error, Some("Service exited with code 78".to_string())))));
    assert_eq!(expect_finish(a), Err("skhd.zig: Service exited with code 78".to_string()));
}

#[test]
fn zig_install_is_refused_even_when_the_rest_does_not_parse() {
    let config = ":: resize\n.remap caps_lock [device builtin] {\n  tap: escape\n  hold: lctrl\n}\n";
    let (_, a) = install_after_reading(Some(config));
    assert!(matches!(expect_finish(a), Err(m) if m.starts_with("skhd.zig: The configuration has block-form .remap rules")));
    let (_, a) = install_after_reading(Some("cmd - a ; mode : x\n   .remap caps_lock {\n}\n"));
    assert!(expect_finish(a).is_err());
    let (_, a) = install_after_reading(Some(".remapped caps_lock {\n"));
    expect_run(&a, &["which", "skhd"]);
}

use keybinder::models::{ServiceState, SkhdVariant};
use keybinder::paths::{active_config_path, plist_path_original, service_config_candidates, service_config_missing};
use keybinder::service::{
    launchctl_missing_message, parse_launchctl_entry, parse_u32, restart_verdict, start_verdict,
    status_report, stop_verdict, ServiceError, StatusOutput,
};

#[test]
fn test_service_error_display() {
    let err = ServiceError {
        variant: SkhdVariant::Original,
        message: "Failed to start".to_string(),
    };
    assert_eq!(err.to_string(), "skhd: Failed to start");

    let err_zig = ServiceError {
        variant: SkhdVariant::Zig,
        message: "Binary not found".to_string(),
    };
    assert_eq!(err_zig.to_string(), "skhd.zig: Binary not found");
}

#[test]
fn test_plist_path_original() {
    let path = plist_path_original("/Users/test");
    assert!(path.contains("com.koekeishiya.skhd.plist"));
    assert_eq!(path, "/Users/test/Library/LaunchAgents/com.koekeishiya.skhd.plist");
}

#[test]
fn test_get_active_config_path_original_searches_correct_paths() {
    let result = active_config_path(SkhdVariant::Original, Some("/nonexistent_home"), None, &vec![false, false]);
    assert!(result.is_err());
    let err_msg = result.unwrap_err();
    assert!(err_msg.contains(".config/skhd/skhdrc"));
    assert!(err_msg.contains(".skhdrc"));
    assert_eq!(
        service_config_candidates(SkhdVariant::Original, "/nonexistent_home", None),
        vec!["/nonexistent_home/.config/skhd/skhdrc", "/nonexistent_home/.skhdrc"]
    );
}

#[test]
fn test_get_active_config_path_zig_searches_xdg_paths() {
    let result = active_config_path(SkhdVariant::Zig, Some("/nonexistent_home"), None, &vec![false, false, false]);
    assert!(result.is_err());
    let err_msg = result.unwrap_err();
    assert_eq!(err_msg, service_config_missing(SkhdVariant::Zig, "/nonexistent_home", None));
    assert!(err_msg.contains("XDG_CONFIG_HOME"));
    assert!(err_msg.contains(".config/skhd/skhdrc"));
    assert!(err_msg.contains(".skhdrc"));
    assert_eq!(
        service_config_candidates(SkhdVariant::Zig, "/h", Some("/x")),
        vec!["/x/skhd/skhdrc", "/h/.config/skhd/skhdrc", "/h/.skhdrc"]
    );
}

const LIST: &str = "PID\tStatus\tLabel\n-\t0\tcom.apple.foo\n412\t0\tcom.koekeishiya.skhd\n-\t78\tcom.jackielii.skhd\r\n";

#[test]
fn launchctl_running_job_has_its_pid() {
    let e = parse_launchctl_entry(LIST, "com.koekeishiya.skhd").unwrap();
    assert_eq!(e.state, ServiceState::Running);
    assert_eq!(e.pid, Some(412));
    assert_eq!(e.error_message, None);
}

#[test]
fn launchctl_job_without_pid_is_stopped() {
    let e = parse_launchctl_entry(LIST, "com.jackielii.skhd").unwrap();
    assert_eq!(e.state, ServiceState::Stopped);
    assert_eq!(e.pid, None);
}

#[test]
fn launchctl_nonzero_status_is_an_error() {
    let e = parse_launchctl_entry("99 1 com.koekeishiya.skhd", "com.koekeishiya.skhd").unwrap();
    assert_eq!(e.state, ServiceState::Error);
    assert_eq!(e.pid, Some(99));
    assert_eq!(e.error_message.as_deref(), Some("Service exited with code 1"));
}

#[test]
fn launchctl_short_lines_and_other_jobs_are_skipped() {
    assert!(parse_launchctl_entry("com.koekeishiya.skhd\n", "com.koekeishiya.skhd").is_none());
    let grabber = "123\t0\tcom.jackielii.skhd.grabber\n-\t0\tcom.jackielii.skhd\n";
    let e = parse_launchctl_entry(grabber, "com.jackielii.skhd").unwrap();
    assert_eq!(e.state, ServiceState::Stopped);
    assert_eq!(e.pid, None);
    assert!(parse_launchctl_entry("1\t0\tcom.jackielii.skhd.grabber\n", "com.jackielii.skhd").is_none());
    assert!(parse_launchctl_entry(LIST, "com.example.other").is_none());
    assert_eq!(
        launchctl_missing_message("com.example.other"),
        "skhd service not found in launchctl list (label: com.example.other)."
    );
}

#[test]
fn u32_parsing_follows_str_parse() {
    for s in ["0", "+7", "4294967295", "", "+", "-1", "4294967296", "12a", " 1"] {
        assert_eq!(parse_u32(s), s.parse::<u32>().ok(), "{s}");
    }
}

#[test]
fn skhd_status_output_is_classified() {
    let ran = |success, out: &str, err: &str| StatusOutput::Ran {
        success,
        stdout: out.to_string(),
        stderr: err.to_string(),
    };
    assert_eq!(status_report(&ran(true, "service is running", "")), (ServiceState::Running, None));
    assert_eq!(status_report(&ran(true, "stopped", "")), (ServiceState::Stopped, None));
    assert_eq!(
        status_report(&ran(true, "  weird \n", "")),
        (ServiceState::Unknown, Some("Status: weird".to_string()))
    );
    assert_eq!(
        status_report(&ran(false, "", " boom\n")),
        (ServiceState::Error, Some("skhd --status failed: boom".to_string()))
    );
    assert_eq!(
        status_report(&StatusOutput::CouldNotRun),
        (ServiceState::Unknown, Some("Failed to run skhd --status".to_string()))
    );
}

#[test]
fn verdicts_name_the_variant() {
    assert_eq!(start_verdict(SkhdVariant::Zig, ServiceState::Running, None), Ok(()));
    assert_eq!(
        start_verdict(SkhdVariant::Original, ServiceState::Error, None),
        Err("skhd: Service failed to start. Check your skhd configuration for syntax errors.".to_string())
    );
    assert_eq!(
        start_verdict(SkhdVariant::Original, ServiceState::Error, Some("exit 3".to_string())),
        Err("skhd: exit 3".to_string())
    );
    assert_eq!(
        start_verdict(SkhdVariant::Zig, ServiceState::Stopped, None),
        Err("skhd.zig: Service in unexpected state: Stopped. Try restarting the service manually with: skhd --restart-service".to_string())
    );
    assert_eq!(
        stop_verdict(SkhdVariant::Zig, ServiceState::Running),
        Err("skhd.zig: Failed to stop service. The service is still running.".to_string())
    );
    assert_eq!(stop_verdict(SkhdVariant::Zig, ServiceState::Stopped), Ok(()));
    assert_eq!(
        restart_verdict(SkhdVariant::Original, ServiceState::Unknown),
        Err("skhd: Service failed to restart. Check the service status.".to_string())
    );
    assert_eq!(restart_verdict(SkhdVariant::Original, ServiceState::Running), Ok(()));
}

#[test]
fn active_config_path_is_the_first_existing_or_needs_home() {
    assert_eq!(
        active_config_path(SkhdVariant::Original, Some("/h"), None, &vec![false, true]),
        Ok("/h/.skhdrc".to_string())
    );
    assert_eq!(
        active_config_path(SkhdVariant::Zig, Some("/h"), Some("/x"), &vec![true, true, false]),
        Ok("/x/skhd/skhdrc".to_string())
    );
    let err = active_config_path(SkhdVariant::Original, None, None, &vec![]).unwrap_err();
    assert!(err.starts_with("Failed to get HOME environment variable."));
}

#[test]
fn inactive_status_is_stopped() {
    let ran = |success, out: &str, err: &str| StatusOutput::Ran {
        success,
        stdout: out.to_string(),
        stderr: err.to_string(),
    };
    assert_eq!(status_report(&ran(true, "skhd is inactive", "")).0, ServiceState::Stopped);
    assert_eq!(status_report(&ran(true, "skhd is active", "")).0, ServiceState::Running);
}

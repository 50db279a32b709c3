use keybinder::homebrew::{brew_command, brew_in, brew_search_dirs, child_path, missing_brew_message, standard_bin_dirs};

#[test]
fn missing_brew_error_lists_search_locations_and_custom_install_guidance() {
    // With no standard directories and no PATH there is nothing to search.
    assert!(brew_search_dirs(&vec![], None).is_empty());
    let message = missing_brew_message();
    assert!(message.contains("/opt/homebrew/bin"));
    assert!(message.contains("/usr/local/bin"));
    assert!(message.contains("custom Homebrew install"));
}

#[test]
fn path_entries_come_before_standard_directories_in_their_own_order() {
    let standard = vec!["/standard".to_string()];
    for (path, first) in [("/first:/second", "/first"), ("/second:/first", "/second")] {
        let dirs = brew_search_dirs(&standard, Some(path));
        assert_eq!(dirs[0], first);
        assert_eq!(dirs.last().map(String::as_str), Some("/standard"));
        assert!(child_path(first, Some(path)).starts_with(&format!("{}:", first)));
    }
}

#[test]
fn gui_path_without_homebrew_still_searches_both_standard_locations() {
    let dirs = brew_search_dirs(&standard_bin_dirs(), Some("/usr/bin:/bin:/usr/sbin:/sbin"));
    assert_eq!(
        dirs,
        vec!["/usr/bin", "/bin", "/usr/sbin", "/sbin", "/opt/homebrew/bin", "/usr/local/bin"]
    );
    let dirs = brew_search_dirs(&standard_bin_dirs(), None);
    assert_eq!(brew_in(&dirs[0]), "/opt/homebrew/bin/brew");
}

#[test]
fn relative_and_empty_path_entries_are_never_searched() {
    assert!(brew_search_dirs(&vec![], Some(".:relative:")).is_empty());
    assert_eq!(brew_search_dirs(&vec!["bin".to_string()], Some("/abs")), vec!["/abs"]);
}

#[test]
fn brew_command_runs_the_first_usable_brew_with_a_child_path() {
    let dirs = vec!["/first".to_string(), "/second".to_string(), "/opt/homebrew/bin".to_string()];
    assert_eq!(
        brew_command(&dirs, &vec![false, true, true], Some("/first:rel:/second")),
        Ok((
            "/second/brew".to_string(),
            "/second:/usr/bin:/bin:/usr/sbin:/sbin:/first:/second".to_string()
        ))
    );
    let err = brew_command(&dirs, &vec![false, false, false], None).unwrap_err();
    assert!(err.contains("/opt/homebrew/bin"));
    assert!(err.contains("/usr/local/bin"));
    assert!(err.contains("custom Homebrew install"));
}

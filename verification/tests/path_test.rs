use keybinder::homebrew::{brew_in, brew_search_dirs, child_path, standard_bin_dirs};
use keybinder::models::SkhdVariant;
use keybinder::paths::{
    config_path_error, config_paths, default_config_candidates, expand_path,
    first_existing_config_path, get_backup_dir, get_config_dir, get_config_path_for_variant,
    get_config_paths_for_variant, get_default_config_path, is_valid_config_path, join_path, normalize,
    config_path_from_env, starts_with_path,
};

const HOME: Option<&str> = Some("/Users/test");

#[test]
fn test_expand_tilde() {
    assert_eq!(expand_path("~/test/path", HOME), "/Users/test/test/path");
}

#[test]
fn test_expand_tilde_only() {
    assert_eq!(expand_path("~", HOME), "/Users/test");
}

#[test]
fn test_no_expansion_needed() {
    let path = "/absolute/path";
    assert_eq!(expand_path(path, HOME), path);
    assert_eq!(expand_path("~/x", None), "~/x");
    assert_eq!(expand_path("~other", HOME), "~other");
}

#[test]
fn test_get_config_dir() {
    assert_eq!(get_config_dir(HOME), "/Users/test/.config/skhd");
    assert_eq!(get_backup_dir(HOME), "/Users/test/.config/skhd/backups");
}

#[test]
fn test_is_valid_config_path() {
    assert!(is_valid_config_path("~/.config/skhd/skhdrc", HOME));
    assert!(is_valid_config_path("~/.config/skhd/custom.conf", HOME));

    assert!(!is_valid_config_path("~/Documents/file.txt", HOME));
    assert!(!is_valid_config_path("/etc/passwd", HOME));
    assert!(!is_valid_config_path("~/.config/skhdx/skhdrc", HOME));
}

#[test]
fn test_config_paths_without_xdg() {
    let paths = config_paths("/Users/test", None);

    assert_eq!(paths.len(), 2);
    assert_eq!(paths[0], "/Users/test/.config/skhd/skhdrc");
    assert_eq!(paths[1], "/Users/test/.skhdrc");
}

#[test]
fn test_config_paths_with_xdg() {
    let paths = config_paths("/Users/test", Some("/Users/test/.xdg/config"));

    assert_eq!(paths.len(), 3);
    assert_eq!(paths[0], "/Users/test/.xdg/config/skhd/skhdrc");
    assert_eq!(paths[1], "/Users/test/.config/skhd/skhdrc");
    assert_eq!(paths[2], "/Users/test/.skhdrc");
}

#[test]
fn empty_xdg_is_ignored() {
    assert_eq!(config_paths("/h", Some("")), vec!["/h/.config/skhd/skhdrc", "/h/.skhdrc"]);
    assert_eq!(
        get_config_paths_for_variant(SkhdVariant::Zig, None, None),
        vec!["~/.config/skhd/skhdrc", "~/.skhdrc"]
    );
}

#[test]
fn test_first_existing_config_path_uses_search_order() {
    let paths = vec!["first".to_string(), "second".to_string()];
    assert_eq!(
        first_existing_config_path(&paths, &vec![false, true]),
        Some(paths[1].clone())
    );
    assert_eq!(
        first_existing_config_path(&paths, &vec![true, true]),
        Some(paths[0].clone())
    );
    assert_eq!(first_existing_config_path(&paths, &vec![false, false]), None);
}

#[test]
fn test_config_path_error_lists_all_paths() {
    let paths = config_paths("/nonexistent_home", Some("/nonexistent_xdg"));
    let error = config_path_error(SkhdVariant::Original, &paths);

    assert!(error.contains("/nonexistent_xdg/skhd/skhdrc"));
    assert!(error.contains("/nonexistent_home/.config/skhd/skhdrc"));
    assert!(error.contains("/nonexistent_home/.skhdrc"));
    assert_eq!(
        error,
        "No skhd configuration file found. Searched in:\n- /nonexistent_xdg/skhd/skhdrc\n- /nonexistent_home/.config/skhd/skhdrc\n- /nonexistent_home/.skhdrc\nCreate a configuration file in one of these locations."
    );
}

#[test]
fn config_path_for_variant_is_first_existing_or_error() {
    let paths = config_paths("/h", None);
    assert_eq!(
        get_config_path_for_variant(SkhdVariant::Zig, &paths, &vec![false, true]),
        Ok("/h/.skhdrc".to_string())
    );
    let err = get_config_path_for_variant(SkhdVariant::Zig, &paths, &vec![false, false]).unwrap_err();
    assert!(err.starts_with("No skhd.zig configuration file found."));
}

#[test]
fn default_config_path_falls_back_to_dot_config() {
    let c = default_config_candidates(HOME, Some("/xdg"));
    assert_eq!(c, vec!["/xdg/skhd/skhdrc", "/Users/test/.config/skhd/skhdrc", "/Users/test/.skhdrc"]);
    assert_eq!(get_default_config_path(&c, &vec![false, false, false]), "/Users/test/.config/skhd/skhdrc");
    assert_eq!(get_default_config_path(&c, &vec![false, false, true]), "/Users/test/.skhdrc");
    assert_eq!(get_default_config_path(&c, &vec![true, false, true]), "/xdg/skhd/skhdrc");
}

#[test]
fn join_follows_pathbuf() {
    for (a, b) in [("/a", "b"), ("/a/", "b"), ("", "b"), ("/a", "/b"), ("/a", "")] {
        let expected = std::path::PathBuf::from(a).join(b).to_string_lossy().into_owned();
        assert_eq!(join_path(a, b), expected, "{a} {b}");
    }
}

#[test]
fn brew_search_order_and_child_path() {
    let dirs = brew_search_dirs(&standard_bin_dirs(), Some("/first:relative::/second"));
    assert_eq!(dirs, vec!["/first", "/second", "/opt/homebrew/bin", "/usr/local/bin"]);
    assert_eq!(brew_in(&dirs[0]), "/first/brew");
    assert_eq!(
        child_path("/opt/homebrew/bin", Some(".:/extra")),
        "/opt/homebrew/bin:/usr/bin:/bin:/usr/sbin:/sbin:/extra"
    );
    assert_eq!(
        child_path("/opt/homebrew/bin", None),
        "/opt/homebrew/bin:/usr/bin:/bin:/usr/sbin:/sbin"
    );
}

#[test]
fn dot_dot_cannot_leave_the_config_directory() {
    assert!(!is_valid_config_path("~/.config/skhd/../../x", HOME));
    assert!(!is_valid_config_path("/Users/test/.config/skhd/../skhd2/rc", HOME));
    assert!(is_valid_config_path("~/.config/skhd/./a/../skhdrc", HOME));
    assert!(is_valid_config_path("/Users/test//.config/skhd/skhdrc", HOME));
}

#[test]
fn paths_are_normalized_lexically() {
    assert_eq!(normalize("/a//b/./c/../d"), "/a/b/d");
    assert_eq!(normalize("/.."), "/");
    assert_eq!(normalize("../a/.."), "..");
    assert_eq!(normalize("a/b/"), "a/b");
    assert_eq!(normalize(""), "");
}

#[test]
fn component_prefix_agrees_with_std_path() {
    let paths = [
        "/a/b/c", "/a/b", "/a", "/", "", "a/b", "a", "./a/b", ".", "./", "/a//b/", "/a/./b",
        "a/../b", "/ab", "../a", "/a/b/../c", ".a/b",
    ];
    for p in paths {
        for b in paths {
            assert_eq!(
                starts_with_path(p, b),
                std::path::Path::new(p).starts_with(b),
                "{p:?} starts with {b:?}"
            );
        }
    }
}

#[test]
fn config_path_from_env_needs_home() {
    let err = config_path_from_env(SkhdVariant::Zig, None, None, &vec![]).unwrap_err();
    assert!(err.starts_with("Failed to get HOME environment variable."));
    let paths = config_paths("/h", Some("/x"));
    assert_eq!(
        config_path_from_env(SkhdVariant::Original, Some("/h"), Some("/x"), &vec![false, true, true]),
        Ok(paths[1].clone())
    );
    let err = config_path_from_env(SkhdVariant::Zig, Some("/h"), Some("/x"), &vec![false; 3]).unwrap_err();
    for p in &paths {
        assert!(err.contains(p.as_str()));
    }
    assert_eq!(get_config_paths_for_variant(SkhdVariant::Original, Some("/h"), None), get_config_paths_for_variant(SkhdVariant::Zig, Some("/h"), None));
}

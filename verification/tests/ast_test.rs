use keybinder::ast::{ConfigLine, ParsedConfig, ParsedShortcut, ZigDirective};

#[test]
fn test_parsed_shortcut_creation() {
    let shortcut = ParsedShortcut {
        line_number: 1,
        modifiers: vec!["cmd".to_string()],
        key: "return".to_string(),
        command: "open -a Terminal".to_string(),
        comment: None,
    };
    assert_eq!(shortcut.line_number, 1);
    assert_eq!(shortcut.modifiers, vec!["cmd"]);
}

#[test]
fn test_zig_directive_alias() {
    let alias = ZigDirective::Alias {
        line_number: 1,
        name: "$hyper".to_string(),
        value: "cmd + alt + ctrl + shift".to_string(),
    };
    assert_eq!(alias.line_number(), 1);
    assert_eq!(alias.directive_name(), "alias");
}

#[test]
fn test_zig_directive_define_group() {
    let define = ZigDirective::DefineGroup {
        line_number: 2,
        name: "terminal_apps".to_string(),
        applications: vec!["kitty".to_string(), "wezterm".to_string()],
    };
    assert_eq!(define.line_number(), 2);
    assert_eq!(define.directive_name(), "define");
}

#[test]
fn test_zig_directive_define_command() {
    let define = ZigDirective::DefineCommand {
        line_number: 3,
        name: "yabai_focus".to_string(),
        template: "yabai -m window --focus {{1}}".to_string(),
    };
    assert_eq!(define.line_number(), 3);
    assert_eq!(define.directive_name(), "define");
}

#[test]
fn test_zig_directive_path() {
    let path = ZigDirective::Path {
        line_number: 4,
        paths: vec!["/usr/local/bin".to_string()],
    };
    assert_eq!(path.line_number(), 4);
    assert_eq!(path.directive_name(), "path");
}

#[test]
fn test_parsed_config_directives() {
    let mut config = ParsedConfig::new();
    config
        .lines
        .push(ConfigLine::Directive(ZigDirective::Alias {
            line_number: 1,
            name: "$hyper".to_string(),
            value: "cmd + shift + alt + ctrl".to_string(),
        }));
    config.lines.push(ConfigLine::Directive(ZigDirective::Path {
        line_number: 2,
        paths: vec!["~/.cargo/bin".to_string()],
    }));

    let directives = config.directives();
    assert_eq!(directives.len(), 2);
    assert!(config.has_zig_directives());

    let counts = config.directive_counts();
    assert_eq!(counts.get("alias"), Some(&1));
    assert_eq!(counts.get("path"), Some(&1));
}

#[test]
fn generic_directives_are_named_and_counted_by_keyword() {
    let mut config = ParsedConfig::default();
    for (n, kw) in [(1, "remap"), (2, "device"), (3, "remap")] {
        config.lines.push(ConfigLine::Directive(ZigDirective::Generic {
            line_number: n,
            keyword: kw.to_string(),
            content: String::new(),
        }));
    }
    config.lines.push(ConfigLine::Empty(4));
    assert_eq!(config.directives()[1].directive_name(), "device");
    let counts = config.directive_counts();
    assert_eq!(counts.len(), 2);
    assert_eq!(counts.get("remap"), Some(&2));
    assert_eq!(counts.get("device"), Some(&1));
    assert_eq!(counts.get("alias"), None);
    let entries = counts.entries();
    assert_eq!(entries, vec![("remap".to_string(), 2), ("device".to_string(), 1)]);
    assert_eq!(entries.iter().map(|e| e.1).sum::<usize>(), config.directives().len());
    assert!(!config.has_block_remap());
}

#[test]
fn block_remap_rules_are_recognised() {
    let mut config = ParsedConfig::new();
    config.lines.push(ConfigLine::Directive(ZigDirective::Generic {
        line_number: 1,
        keyword: "remap".to_string(),
        content: "caps_lock : escape".to_string(),
    }));
    assert!(!config.has_block_remap());
    config.lines.push(ConfigLine::Directive(ZigDirective::Generic {
        line_number: 2,
        keyword: "remap".to_string(),
        content: "caps_lock [device builtin] {\n  tap: escape\n}".to_string(),
    }));
    assert!(config.has_block_remap());
}

#[test]
fn config_without_directives_reports_none() {
    let mut config = ParsedConfig::new();
    config.lines.push(ConfigLine::Empty(1));
    assert!(!config.has_zig_directives());
    assert!(config.directives().is_empty());
    assert_eq!(config.directive_counts().len(), 0);
    assert!(config.shortcuts().is_empty());
    assert!(config.comments().is_empty());
}

use keybinder::ast::{ConfigLine, ParsedConfig, ParsedModeSwitch, ParsedProcessMap, ParsedShortcut, ZigDirective};
use keybinder::parser::{parse_config, ParseError};

#[test]
fn test_parse_simple_shortcut() {
    let config = "cmd - return : open -a Terminal\n";
    let result = parse_config(config);
    if let Err(ref errors) = result {
        for e in errors {
            println!("Parse error: {:?}", e);
        }
    }
    assert!(result.is_ok());

    let parsed = result.unwrap();
    let shortcuts = parsed.shortcuts();
    assert_eq!(shortcuts.len(), 1);
    assert_eq!(shortcuts[0].modifiers, vec!["cmd"]);
    assert_eq!(shortcuts[0].key, "return");
    assert_eq!(shortcuts[0].command, "open -a Terminal");
}

#[test]
fn test_parse_multiple_modifiers() {
    let config = "cmd + shift - f : open ~\n";
    let result = parse_config(config);
    assert!(result.is_ok());

    let parsed = result.unwrap();
    let shortcuts = parsed.shortcuts();
    assert_eq!(shortcuts.len(), 1);
    assert_eq!(shortcuts[0].modifiers, vec!["cmd", "shift"]);
    assert_eq!(shortcuts[0].key, "f");
}

#[test]
fn test_parse_with_comments() {
    let config = "# This is a comment\ncmd - return : open -a Terminal\n";
    let result = parse_config(config);
    assert!(result.is_ok());

    let parsed = result.unwrap();
    assert_eq!(parsed.comments().len(), 1);
    assert_eq!(parsed.shortcuts().len(), 1);
}

#[test]
fn test_parse_alias_directive_modifier() {
    let config = ".alias $hyper cmd + alt + ctrl + shift\n";

    let result = parse_config(config);
    assert!(
        result.is_ok(),
        "Failed to parse alias directive: {:?}",
        result.err()
    );

    let parsed = result.unwrap();
    let directives = parsed.directives();
    assert_eq!(directives.len(), 1);

    match &directives[0] {
        ZigDirective::Alias { name, value, .. } => {
            assert_eq!(name, "$hyper");
            assert_eq!(value, "cmd + alt + ctrl + shift");
        }
        _ => panic!("Expected Alias directive"),
    }
}

#[test]
fn test_parse_alias_directive_keycode() {
    let config = ".alias $grave 0x32\n";
    let result = parse_config(config);
    assert!(
        result.is_ok(),
        "Failed to parse keycode alias: {:?}",
        result.err()
    );

    let parsed = result.unwrap();
    let directives = parsed.directives();
    assert_eq!(directives.len(), 1);

    match &directives[0] {
        ZigDirective::Alias { name, value, .. } => {
            assert_eq!(name, "$grave");
            assert_eq!(value, "0x32");
        }
        _ => panic!("Expected Alias directive"),
    }
}

#[test]
fn test_parse_define_group_directive() {
    let config = ".define terminal_apps [\"kitty\", \"wezterm\", \"terminal\"]\n";
    let result = parse_config(config);
    assert!(
        result.is_ok(),
        "Failed to parse define group: {:?}",
        result.err()
    );

    let parsed = result.unwrap();
    let directives = parsed.directives();
    assert_eq!(directives.len(), 1);

    match &directives[0] {
        ZigDirective::DefineGroup {
            name, applications, ..
        } => {
            assert_eq!(name, "terminal_apps");
            assert_eq!(applications, &["kitty", "wezterm", "terminal"]);
        }
        _ => panic!("Expected DefineGroup directive"),
    }
}

#[test]
fn test_parse_define_command_directive() {
    let config = ".define yabai_focus : yabai -m window --focus {{1}}\n";
    let result = parse_config(config);
    assert!(
        result.is_ok(),
        "Failed to parse define command: {:?}",
        result.err()
    );

    let parsed = result.unwrap();
    let directives = parsed.directives();
    assert_eq!(directives.len(), 1);

    match &directives[0] {
        ZigDirective::DefineCommand { name, template, .. } => {
            assert_eq!(name, "yabai_focus");
            assert_eq!(template, "yabai -m window --focus {{1}}");
        }
        _ => panic!("Expected DefineCommand directive"),
    }
}

#[test]
fn test_parse_path_directive_single() {
    let config = ".path \"/usr/local/bin\"\n";
    let result = parse_config(config);
    assert!(
        result.is_ok(),
        "Failed to parse path directive: {:?}",
        result.err()
    );

    let parsed = result.unwrap();
    let directives = parsed.directives();
    assert_eq!(directives.len(), 1);

    match &directives[0] {
        ZigDirective::Path { paths, .. } => {
            assert_eq!(paths, &["/usr/local/bin"]);
        }
        _ => panic!("Expected Path directive"),
    }
}

#[test]
fn test_parse_path_directive_list() {
    let config = ".path [\"/opt/custom/bin\", \"$HOME/bin\"]\n";
    let result = parse_config(config);
    assert!(
        result.is_ok(),
        "Failed to parse path list: {:?}",
        result.err()
    );

    let parsed = result.unwrap();
    let directives = parsed.directives();
    assert_eq!(directives.len(), 1);

    match &directives[0] {
        ZigDirective::Path { paths, .. } => {
            assert_eq!(paths, &["/opt/custom/bin", "$HOME/bin"]);
        }
        _ => panic!("Expected Path directive"),
    }
}

#[test]
fn test_parse_shell_directive() {
    let config = ".shell \"/bin/zsh\"\n";
    let result = parse_config(config);
    assert!(
        result.is_ok(),
        "Failed to parse shell directive: {:?}",
        result.err()
    );

    let parsed = result.unwrap();
    let directives = parsed.directives();
    assert_eq!(directives.len(), 1);

    match &directives[0] {
        ZigDirective::Shell { shell_path, .. } => {
            assert_eq!(shell_path, "/bin/zsh");
        }
        _ => panic!("Expected Shell directive"),
    }
}

#[test]
fn test_parse_blacklist_directive() {
    let config = ".blacklist [\"loginwindow\", \"screensaver\"]\n";
    let result = parse_config(config);
    assert!(
        result.is_ok(),
        "Failed to parse blacklist directive: {:?}",
        result.err()
    );

    let parsed = result.unwrap();
    let directives = parsed.directives();
    assert_eq!(directives.len(), 1);

    match &directives[0] {
        ZigDirective::Blacklist { applications, .. } => {
            assert_eq!(applications, &["loginwindow", "screensaver"]);
        }
        _ => panic!("Expected Blacklist directive"),
    }
}

#[test]
fn test_parse_load_directive() {
    let config = ".load \"~/.config/skhd/extra.skhdrc\"\n";
    let result = parse_config(config);
    assert!(
        result.is_ok(),
        "Failed to parse load directive: {:?}",
        result.err()
    );

    let parsed = result.unwrap();
    let directives = parsed.directives();
    assert_eq!(directives.len(), 1);

    match &directives[0] {
        ZigDirective::Load { file_path, .. } => {
            assert_eq!(file_path, "~/.config/skhd/extra.skhdrc");
        }
        _ => panic!("Expected Load directive"),
    }
}

#[test]
fn test_parse_mixed_skhdrc_with_directives() {
    let config = r#"# skhd.zig config
.shell "/bin/zsh"
.alias $hyper cmd + alt + ctrl + shift
.define terminal_apps ["kitty", "wezterm", "terminal"]
.path "~/.cargo/bin"

# Standard shortcuts
cmd - return : open -a Terminal
hyper - h : echo "hyper-h"
"#;

    let result = parse_config(config);
    assert!(
        result.is_ok(),
        "Failed to parse mixed config: {:?}",
        result.err()
    );

    let parsed = result.unwrap();

    let shortcuts = parsed.shortcuts();
    assert_eq!(shortcuts.len(), 2, "Expected 2 shortcuts");

    let directives = parsed.directives();
    assert_eq!(directives.len(), 4, "Expected 4 directives");

    assert!(parsed.has_zig_directives());

    let counts = parsed.directive_counts();
    assert_eq!(counts.get("shell"), Some(&1));
    assert_eq!(counts.get("alias"), Some(&1));
    assert_eq!(counts.get("define"), Some(&1));
    assert_eq!(counts.get("path"), Some(&1));
}

#[test]
fn test_parse_multiline_directive_lists() {
    let config = ".blacklist [\n  \"loginwindow\"\n  \"screensaver\"\n]\n.path [\n  \"/opt/bin\",\n  \"$HOME/bin\"\n]\ncmd - a : echo ready\n";
    let parsed = parse_config(config).unwrap();
    let directives = parsed.directives();

    assert!(matches!(
        directives[0],
        ZigDirective::Blacklist { applications, .. }
            if applications == &["loginwindow", "screensaver"]
    ));
    assert!(matches!(
        directives[1],
        ZigDirective::Path { paths, .. }
            if paths == &["/opt/bin", "$HOME/bin"]
    ));
    assert_eq!(parsed.shortcuts()[0].line_number, 9);
}

#[test]
fn test_parse_current_and_future_directives_losslessly() {
    let config = ".device builtin { vendor: 0x05AC, product: 0x0342 }\n.sequence_timeout 500ms\n.remap caps_lock [device builtin] {\n  tap: escape\n  hold: lctrl\n}\n";
    let parsed = parse_config(config).unwrap();
    let directives = parsed.directives();

    assert!(matches!(
        directives[0],
        ZigDirective::Generic { keyword, content, .. }
            if keyword == "device" && content.contains("vendor: 0x05AC")
    ));
    assert!(matches!(
        directives[1],
        ZigDirective::Generic { keyword, content, .. }
            if keyword == "sequence_timeout" && content == "500ms"
    ));
    assert!(matches!(
        directives[2],
        ZigDirective::Generic { keyword, content, .. }
            if keyword == "remap" && content.contains("hold: lctrl")
    ));
    assert_eq!(directives[2].line_number(), 3);
}

#[test]
fn test_parse_mouse_keys() {
    let config = "cmd - mouse1 : echo 'cmd-click'\nmeh - mouse3 : open -a 'Mission Control'\n";
    let result = parse_config(config);
    assert!(
        result.is_ok(),
        "Failed to parse mouse keys: {:?}",
        result.err()
    );

    let parsed = result.unwrap();
    let shortcuts = parsed.shortcuts();
    assert_eq!(shortcuts.len(), 2);
    assert_eq!(shortcuts[0].key, "mouse1");
    assert_eq!(shortcuts[1].key, "mouse3");
}

#[test]
fn test_parse_backtick_key() {
    let config = "cmd - backtick : echo 'backtick pressed'\n";
    let result = parse_config(config);
    assert!(
        result.is_ok(),
        "Failed to parse backtick key: {:?}",
        result.err()
    );

    let parsed = result.unwrap();
    let shortcuts = parsed.shortcuts();
    assert_eq!(shortcuts.len(), 1);
    assert_eq!(shortcuts[0].key, "backtick");
}

#[test]
fn test_parse_extended_modifiers() {
    let config =
        "hyper - h : echo 'hyper-h'\nmeh - t : echo 'meh-t'\nlcmd - a : echo 'left cmd'\n";
    let result = parse_config(config);
    assert!(
        result.is_ok(),
        "Failed to parse extended modifiers: {:?}",
        result.err()
    );

    let parsed = result.unwrap();
    let shortcuts = parsed.shortcuts();
    assert_eq!(shortcuts.len(), 3);
    assert_eq!(shortcuts[0].modifiers, vec!["hyper"]);
    assert_eq!(shortcuts[1].modifiers, vec!["meh"]);
    assert_eq!(shortcuts[2].modifiers, vec!["lcmd"]);
}

// ------------------------------------------------------------------
// Further cases of the grammar and of its errors
// ------------------------------------------------------------------

#[test]
fn parses_empty_input_to_no_lines() {
    let parsed = parse_config("").unwrap();
    assert_eq!(parsed, ParsedConfig::new());
}

#[test]
fn keeps_every_line_in_order_with_line_numbers() {
    let config = "# head\n\n  cmd - a : echo a\r\n.shell zsh";
    let parsed = parse_config(config).unwrap();
    assert_eq!(parsed.lines.len(), 4);
    assert!(matches!(&parsed.lines[0], ConfigLine::Comment(c) if c.text == "head" && c.line_number == 1));
    assert!(matches!(&parsed.lines[1], ConfigLine::Empty(2)));
    assert!(matches!(&parsed.lines[2], ConfigLine::Shortcut(s) if s.command == "echo a" && s.line_number == 3));
    assert!(matches!(&parsed.lines[3], ConfigLine::Directive(ZigDirective::Shell { shell_path, line_number: 4 }) if shell_path == "zsh"));
}

#[test]
fn comment_text_drops_every_leading_hash() {
    let parsed = parse_config("### Section ###\n").unwrap();
    assert_eq!(parsed.comments()[0].text, "Section ###");
}

#[test]
fn key_without_modifiers_is_a_shortcut() {
    let parsed = parse_config("f1 : echo one\n").unwrap();
    let s = parsed.shortcuts();
    assert_eq!(
        *s[0],
        ParsedShortcut {
            line_number: 1,
            modifiers: Vec::new(),
            key: "f1".to_string(),
            command: "echo one".to_string(),
            comment: None,
        }
    );
}

#[test]
fn syntax_error_is_reported_alone_with_position() {
    let errors = parse_config(".alias foo bar\n  cmd - : nothing\n").unwrap_err();
    assert_eq!(
        errors,
        vec![ParseError {
            line_number: 2,
            column: Some(3),
            message: "Syntax error: expected a shortcut, comment, directive or empty line"
                .to_string(),
        }]
    );
    assert_eq!(
        errors[0].to_string(),
        "Parse error at line 2, column 3: Syntax error: expected a shortcut, comment, directive or empty line"
    );
}

#[test]
fn unclosed_directive_bracket_is_a_syntax_error() {
    let errors = parse_config("cmd - a : x\n.blacklist [\"a\",\n").unwrap_err();
    assert_eq!(errors.len(), 1);
    assert_eq!(errors[0].line_number, 2);
    assert_eq!(errors[0].column, Some(1));
    assert_eq!(errors[0].message, "Syntax error: unclosed bracket in directive");
}

#[test]
fn every_semantic_error_is_collected_in_order() {
    let config = ".alias hyper cmd\ncmd - a :   \n.define nothing\n. spaced\n";
    let errors = parse_config(config).unwrap_err();
    let messages: Vec<(usize, &str)> = errors
        .iter()
        .map(|e| (e.line_number, e.message.as_str()))
        .collect();
    assert_eq!(
        messages,
        vec![
            (1, "Alias directive must have a name starting with $"),
            (2, "Missing command specification"),
            (3, "Define directive must be in group form [..] or command form : template"),
            (4, "Directive missing keyword"),
        ]
    );
    assert!(errors.iter().all(|e| e.column.is_none()));
    assert_eq!(errors[1].to_string(), "Parse error at line 2: Missing command specification");
}

#[test]
fn alias_without_value_has_empty_value() {
    let parsed = parse_config(".alias $solo\n").unwrap();
    assert!(matches!(parsed.directives()[0], ZigDirective::Alias { name, value, .. } if name == "$solo" && value.is_empty()));
}

#[test]
fn bare_path_and_quote_trimming() {
    let parsed = parse_config(".path /usr/bin\n.load \"\"\"x\"\"\n").unwrap();
    let d = parsed.directives();
    assert!(matches!(d[0], ZigDirective::Path { paths, .. } if paths == &["/usr/bin"]));
    assert!(matches!(d[1], ZigDirective::Load { file_path, .. } if file_path == "x"));
}

#[test]
fn brackets_inside_quotes_do_not_continue_a_directive() {
    let parsed = parse_config(".define open_bracket : echo \"[\"\ncmd - a : x\n").unwrap();
    let d = parsed.directives();
    assert!(matches!(d[0], ZigDirective::DefineCommand { name, template, .. } if name == "open_bracket" && template == "echo \"[\""));
    assert_eq!(parsed.shortcuts()[0].line_number, 2);
}

#[test]
fn define_command_template_may_hold_brackets() {
    let parsed = parse_config(".define first : jq '.[0]'\n").unwrap();
    let directives = parsed.directives();
    assert_eq!(
        directives[0],
        &ZigDirective::DefineCommand {
            line_number: 1,
            name: "first".to_string(),
            template: "jq '.[0]'".to_string(),
        }
    );
    let parsed = parse_config(".define apps [ \"a\" ]\n").unwrap();
    assert!(matches!(parsed.directives()[0], ZigDirective::DefineGroup { .. }));
}

#[test]
fn mode_switches_are_parsed() {
    let parsed = parse_config("cmd - a ; resize : echo 'entered'\nalt - r ; default\nescape ; normal\n").unwrap();
    assert_eq!(
        parsed.lines[0],
        ConfigLine::ModeSwitch(ParsedModeSwitch {
            line_number: 1,
            modifiers: vec!["cmd".to_string()],
            key: "a".to_string(),
            mode: "resize".to_string(),
            command: Some("echo 'entered'".to_string()),
        })
    );
    assert_eq!(
        parsed.lines[1],
        ConfigLine::ModeSwitch(ParsedModeSwitch {
            line_number: 2,
            modifiers: vec!["alt".to_string()],
            key: "r".to_string(),
            mode: "default".to_string(),
            command: None,
        })
    );
    assert!(matches!(&parsed.lines[2], ConfigLine::ModeSwitch(m) if m.modifiers.is_empty() && m.key == "escape" && m.mode == "normal"));
    assert!(parsed.shortcuts().is_empty());
}

#[test]
fn process_maps_with_group_references_are_parsed() {
    let config = "cmd - n [\n    \"kitty\" : echo kitty\n    @terminals : echo term\n    * : echo other\n]\ncmd - a : echo a\n";
    let parsed = parse_config(config).unwrap();
    assert_eq!(
        parsed.lines[0],
        ConfigLine::ProcessMap(ParsedProcessMap {
            line_number: 1,
            modifiers: vec!["cmd".to_string()],
            key: "n".to_string(),
            body: "\"kitty\" : echo kitty\n    @terminals : echo term\n    * : echo other".to_string(),
        })
    );
    assert!(matches!(&parsed.lines[1], ConfigLine::Shortcut(s) if s.line_number == 6 && s.command == "echo a"));
    let err = parse_config("cmd - n [\n \"kitty\" : x\n").unwrap_err();
    assert_eq!(err[0].message, "Syntax error: unclosed bracket in process map");
    assert!(parse_config("cmd - a ; : x\n").is_err());
}

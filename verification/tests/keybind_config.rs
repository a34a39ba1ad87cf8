use pengwm::command::{Command, LayoutMode};
use pengwm::keybinds::{
    bindings_from_entries, command_for_key_event, find_keybind, key_name_to_keycode, parse_action,
    parse_modifiers, split_keybind_str, CGEventMaskBit, KeybindConfig, MODIFIER_ALT, MODIFIER_CMD,
    MODIFIER_CTRL, MODIFIER_SHIFT,
};
use pengwm::tree::Direction;

#[test]
fn default_has_vim_navigation() {
    let config = KeybindConfig::default();
    assert!(config
        .bindings
        .iter()
        .any(|b| b.keycode == 0x04 && b.modifiers == MODIFIER_ALT));
    assert!(config
        .bindings
        .iter()
        .any(|b| b.keycode == 0x26 && b.modifiers == MODIFIER_ALT));
    assert!(config
        .bindings
        .iter()
        .any(|b| b.keycode == 0x28 && b.modifiers == MODIFIER_ALT));
    assert!(config
        .bindings
        .iter()
        .any(|b| b.keycode == 0x25 && b.modifiers == MODIFIER_ALT));
}

#[test]
fn default_has_swap_modifiers() {
    let config = KeybindConfig::default();
    let mods = MODIFIER_ALT | MODIFIER_SHIFT;
    assert!(config
        .bindings
        .iter()
        .any(|b| b.keycode == 0x04 && b.modifiers == mods));
    assert!(config
        .bindings
        .iter()
        .any(|b| b.keycode == 0x26 && b.modifiers == mods));
}

#[test]
fn default_has_workspace_switching() {
    let config = KeybindConfig::default();
    for i in 1..=9 {
        assert!(config
            .bindings
            .iter()
            .any(|b| matches!(&b.action, Command::Workspace { id } if *id == i)));
    }
}

#[test]
fn default_has_move_to_workspace() {
    let config = KeybindConfig::default();
    let mods = MODIFIER_ALT | MODIFIER_SHIFT;
    assert!(config
        .bindings
        .iter()
        .any(|b| b.keycode == 0x12 && b.modifiers == mods));
}

#[test]
fn default_has_layout_switching() {
    let config = KeybindConfig::default();
    assert!(config.bindings.iter().any(|b| matches!(
        &b.action,
        Command::SetLayout {
            mode: LayoutMode::Tile
        }
    )));
    assert!(config.bindings.iter().any(|b| matches!(
        &b.action,
        Command::SetLayout {
            mode: LayoutMode::Accordion
        }
    )));
}

#[test]
fn default_layout_bindings_on_slash_and_comma() {
    let config = KeybindConfig::default();
    assert!(config.bindings.iter().any(|b| b.keycode == 0x2C
        && b.modifiers == MODIFIER_ALT
        && matches!(
            &b.action,
            Command::SetLayout {
                mode: LayoutMode::Tile
            }
        )));
    assert!(config.bindings.iter().any(|b| b.keycode == 0x2B
        && b.modifiers == MODIFIER_ALT
        && matches!(
            &b.action,
            Command::SetLayout {
                mode: LayoutMode::Accordion
            }
        )));
}

#[test]
fn find_keybind_matches() {
    let config = KeybindConfig::default();
    let result = find_keybind(0x04, MODIFIER_ALT, &config);
    assert!(matches!(
        result,
        Some(Command::Focus {
            direction: Direction::Left
        })
    ));
}

#[test]
fn find_keybind_no_match() {
    let config = KeybindConfig::default();
    let result = find_keybind(0xFF, 0, &config);
    assert!(result.is_none());
}

#[test]
fn find_keybind_wrong_modifiers() {
    let config = KeybindConfig::default();
    let result = find_keybind(0x04, MODIFIER_CMD, &config);
    assert!(result.is_none());
}

#[test]
fn find_keybind_layout_switch() {
    let config = KeybindConfig::default();
    let tile = find_keybind(0x2C, MODIFIER_ALT, &config);
    assert!(matches!(
        tile,
        Some(Command::SetLayout {
            mode: LayoutMode::Tile
        })
    ));
    let accordion = find_keybind(0x2B, MODIFIER_ALT, &config);
    assert!(matches!(
        accordion,
        Some(Command::SetLayout {
            mode: LayoutMode::Accordion
        })
    ));
}

#[test]
fn key_name_to_keycode_arrows() {
    assert_eq!(key_name_to_keycode("left"), Some(0x7B));
    assert_eq!(key_name_to_keycode("right"), Some(0x7C));
    assert_eq!(key_name_to_keycode("up"), Some(0x7E));
    assert_eq!(key_name_to_keycode("down"), Some(0x7D));
}

#[test]
fn key_name_to_keycode_letters() {
    assert_eq!(key_name_to_keycode("h"), Some(0x04));
    assert_eq!(key_name_to_keycode("j"), Some(0x26));
    assert_eq!(key_name_to_keycode("k"), Some(0x28));
    assert_eq!(key_name_to_keycode("l"), Some(0x25));
}

#[test]
fn key_name_to_keycode_digits() {
    assert_eq!(key_name_to_keycode("1"), Some(0x12));
    assert_eq!(key_name_to_keycode("9"), Some(0x19));
}

#[test]
fn key_name_to_keycode_punctuation() {
    assert_eq!(key_name_to_keycode(","), Some(0x2B));
    assert_eq!(key_name_to_keycode("/"), Some(0x2C));
}

#[test]
fn key_name_to_keycode_unknown_returns_zero() {
    assert_eq!(key_name_to_keycode("foobar"), None);
}

#[test]
fn parse_modifiers_cmd() {
    assert_eq!(parse_modifiers("cmd"), MODIFIER_CMD);
}

#[test]
fn parse_modifiers_cmd_shift() {
    assert_eq!(parse_modifiers("cmd-shift"), MODIFIER_CMD | MODIFIER_SHIFT);
}

#[test]
fn parse_modifiers_all() {
    let all = MODIFIER_CMD | MODIFIER_ALT | MODIFIER_CTRL | MODIFIER_SHIFT;
    assert_eq!(parse_modifiers("cmd-alt-ctrl-shift"), all);
}

#[test]
fn parse_modifiers_empty() {
    assert_eq!(parse_modifiers(""), 0);
}

#[test]
fn parse_modifiers_case_insensitive() {
    assert_eq!(parse_modifiers("CMD-SHIFT"), MODIFIER_CMD | MODIFIER_SHIFT);
}

#[test]
fn parse_modifiers_invalid_part_ignored() {
    assert_eq!(
        parse_modifiers("cmd-foo-shift"),
        MODIFIER_CMD | MODIFIER_SHIFT
    );
}

#[test]
fn parse_modifiers_full_names() {
    assert_eq!(parse_modifiers("command"), MODIFIER_CMD);
    assert_eq!(parse_modifiers("option"), MODIFIER_ALT);
    assert_eq!(parse_modifiers("control"), MODIFIER_CTRL);
}

#[test]
fn default_has_toggle_bar() {
    let config = KeybindConfig::default();
    assert!(config.bindings.iter().any(|b| {
        b.keycode == 0x0B && b.modifiers == MODIFIER_ALT && matches!(b.action, Command::ToggleBar)
    }));
}

#[test]
fn split_keybind_str_basic() {
    let (mods, key) = split_keybind_str("cmd-shift-h");
    assert_eq!(mods, "cmd-shift");
    assert_eq!(key, "h");
}

#[test]
fn split_keybind_str_no_modifier() {
    let (mods, key) = split_keybind_str("space");
    assert_eq!(mods, "");
    assert_eq!(key, "space");
}

#[test]
fn split_keybind_str_trailing_dash_gives_empty_key() {
    let (mods, key) = split_keybind_str("cmd-");
    assert_eq!(mods, "cmd");
    assert_eq!(key, "");
}

#[test]
fn parse_modifiers_trims_and_repeats() {
    assert_eq!(parse_modifiers(" cmd - Shift "), MODIFIER_CMD | MODIFIER_SHIFT);
    assert_eq!(parse_modifiers("alt-alt"), MODIFIER_ALT);
    assert_eq!(parse_modifiers("-"), 0);
    assert_eq!(parse_modifiers("Option-CONTROL"), MODIFIER_ALT | MODIFIER_CTRL);
}

#[test]
fn default_table_has_every_binding_in_order() {
    let config = KeybindConfig::new();
    assert_eq!(config.bindings.len(), 44);
    assert_eq!(config.bindings[0].keycode, 0x04);
    assert_eq!(
        config.bindings[43].action,
        Command::MoveWindowToDisplay { direction: Direction::Down }
    );
    assert_eq!(
        find_keybind(0x0F, MODIFIER_CMD | MODIFIER_SHIFT, &config),
        Some(Command::ReloadConfig)
    );
    assert_eq!(
        find_keybind(0x7C, MODIFIER_ALT | MODIFIER_CTRL, &config),
        Some(Command::FocusDisplay { direction: Direction::Right })
    );
}

#[test]
fn find_keybind_first_binding_wins() {
    let mut config = KeybindConfig { bindings: Vec::new() };
    config.bindings.push(pengwm::keybinds::Keybind {
        keycode: 1,
        modifiers: MODIFIER_CMD,
        action: Command::Close,
    });
    config.bindings.push(pengwm::keybinds::Keybind {
        keycode: 1,
        modifiers: MODIFIER_CMD,
        action: Command::Quit,
    });
    assert_eq!(find_keybind(1, MODIFIER_CMD, &config), Some(Command::Close));
}

#[test]
fn parse_action_forwards_to_command() {
    assert_eq!(parse_action("workspace-2"), Some(Command::Workspace { id: 2 }));
    assert_eq!(parse_action("nope"), None);
}

#[test]
fn bindings_from_entries_skips_invalid() {
    let entries = vec![
        ("cmd-h".to_string(), Some("focus-left".to_string())),
        ("cmd-shift-j".to_string(), Some("move-window-down".to_string())),
        ("cmd-1".to_string(), Some("workspace-1".to_string())),
        ("cmd-x".to_string(), Some("bogus-action".to_string())),
        ("alt-z".to_string(), Some("workspace-0".to_string())),
        ("alt-zz".to_string(), Some("quit".to_string())),
        ("alt-q".to_string(), None),
    ];
    let config = bindings_from_entries(&entries);
    assert_eq!(config.bindings.len(), 3);
    assert_eq!(config.bindings[1].keycode, 0x26);
    assert_eq!(config.bindings[1].modifiers, MODIFIER_CMD | MODIFIER_SHIFT);
    assert_eq!(config.bindings[2].action, Command::Workspace { id: 1 });
}

#[test]
fn key_events_filter_modifiers_and_system_shortcuts() {
    let config = KeybindConfig::default();
    // Caps lock and other event bits are ignored.
    assert_eq!(
        command_for_key_event(0x04, MODIFIER_ALT | 0x0001_0000, &config),
        Some(Command::Focus { direction: Direction::Left })
    );
    // No modifier: never intercepted.
    assert_eq!(command_for_key_event(0x04, 0, &config), None);
    // Cmd+Tab stays with the system even when bound.
    let mut bound = KeybindConfig::default();
    bound.bindings.insert(
        0,
        pengwm::keybinds::Keybind { keycode: 0x30, modifiers: MODIFIER_CMD, action: Command::Quit },
    );
    assert_eq!(command_for_key_event(0x30, MODIFIER_CMD, &bound), None);
}

#[test]
fn event_mask_bit_shifts_one() {
    assert_eq!(CGEventMaskBit(10), 1 << 10);
    assert_eq!(CGEventMaskBit(0), 1);
}

#[test]
fn from_toml_valid() {
    let toml_str = r#"
cmd-h = "focus-left"
cmd-shift-j = "move-window-down"
cmd-1 = "workspace-1"
"#;
    let value: toml::Value = toml::from_str(toml_str).unwrap();
    let config = pengwm::keybinds::from_toml_value(&value);
    assert_eq!(config.bindings.len(), 3);
}

#[test]
fn from_toml_invalid_ignored() {
    let toml_str = r#"
cmd-h = "focus-left"
cmd-x = "bogus-action"
alt-z = "workspace-0"
"#;
    let value: toml::Value = toml::from_str(toml_str).unwrap();
    let config = pengwm::keybinds::from_toml_value(&value);
    assert_eq!(config.bindings.len(), 1);
}

#[test]
fn try_from_toml_reports_first_invalid_entry() {
    let value: toml::Value = toml::from_str("alt-h = \"focus-left\"\nalt-q = 5\n").unwrap();
    let err = pengwm::keybinds::try_from_toml_value(&value).unwrap_err();
    assert_eq!(err, "keybind 'alt-q' value must be a string");
    let value: toml::Value = toml::from_str("alt-h = \"spin\"\n").unwrap();
    assert_eq!(
        pengwm::keybinds::try_from_toml_value(&value).unwrap_err(),
        "unknown action 'spin' for keybind 'alt-h'"
    );
    let value: toml::Value = toml::from_str("alt-hh = \"quit\"\n").unwrap();
    assert_eq!(
        pengwm::keybinds::try_from_toml_value(&value).unwrap_err(),
        "unknown key 'hh' for keybind 'alt-hh'"
    );
    let value: toml::Value = toml::from_str("alt-h = \"quit\"\n").unwrap();
    assert_eq!(pengwm::keybinds::try_from_toml_value(&value).unwrap().bindings.len(), 1);
}

#[test]
fn keybinds_from_text_falls_back_to_defaults() {
    let config = pengwm::keybinds::keybinds_from_text("this is = = not toml");
    assert_eq!(config.bindings.len(), 44);
    let config = pengwm::keybinds::keybinds_from_text("cmd-1 = \"workspace-1\"");
    assert_eq!(config.bindings.len(), 1);
}

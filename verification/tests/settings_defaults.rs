use pengwm::settings::{keybinds_section, parse_config};
use pengwm::cli::{command_of, CliCommand, DirectionArg, SplitArg};
use pengwm::command::Command;
use pengwm::settings::{default_gap, default_gap_inner, default_max_tiles, default_workspaces, Settings};
use pengwm::tree::{Direction, SplitDirection};

#[test]
fn default_workspaces_are_the_five_named_sets() {
    let ws = default_workspaces();
    let names: Vec<&str> = ws.iter().map(|e| e.name.as_str()).collect();
    assert_eq!(names, vec!["Development", "Browsing", "Notes", "Music", "Messaging"]);
    assert_eq!(ws[0].apps.len(), 15);
    assert_eq!(ws[1].apps[0], "com.apple.Safari");
    assert_eq!(ws[4].apps.last().unwrap(), "Telegram");
}

#[test]
fn settings_defaults() {
    let s = Settings::default();
    assert_eq!(s.gap_outer, 10);
    assert_eq!(s.gap_inner, 5);
    assert_eq!(s.max_tiles, 4);
    assert!(s.menubar.enabled);
    assert_eq!(s.workspaces.len(), 5);
    assert_eq!((default_gap(), default_gap_inner(), default_max_tiles()), (10, 5, 4));
}

#[test]
fn cli_subcommands_map_to_commands() {
    assert_eq!(command_of(CliCommand::Daemon), None);
    assert_eq!(
        command_of(CliCommand::Focus { direction: DirectionArg::Up }),
        Some(Command::Focus { direction: Direction::Up })
    );
    assert_eq!(
        command_of(CliCommand::Split { direction: SplitArg::Horizontal }),
        Some(Command::Split { direction: SplitDirection::Horizontal })
    );
    assert_eq!(command_of(CliCommand::State), Some(Command::QueryState));
    assert_eq!(command_of(CliCommand::Quit), Some(Command::Quit));
    let c: Command = pengwm::client::CliCommand::SetGapInner { pixels: 3 }.into();
    assert_eq!(c, Command::SetGapInner { pixels: 3 });
}

#[test]
fn config_documents_and_keybind_sections() {
    let err = parse_config("gap_outer = = 3", "/tmp/c.toml").unwrap_err();
    assert!(err.message().starts_with("Failed to parse config '/tmp/c.toml': "));
    let doc = parse_config("gap_outer = 3\n[keybinds]\nalt-h = \"focus-left\"\n", "c").unwrap();
    assert_eq!(keybinds_section(&doc, "c").unwrap().bindings.len(), 1);
    let doc = parse_config("gap_outer = 3\n", "c").unwrap();
    assert_eq!(keybinds_section(&doc, "c").unwrap().bindings.len(), 44);
    let doc = parse_config("[keybinds]\nalt-h = \"nope\"\n", "c.toml").unwrap();
    assert_eq!(
        keybinds_section(&doc, "c.toml").unwrap_err().message(),
        "Invalid [keybinds] in 'c.toml': unknown action 'nope' for keybind 'alt-h'"
    );
}

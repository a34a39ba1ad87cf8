use pengwm::command::{Command, LayoutMode};
use pengwm::text::{parse_i32, parse_u32};
use pengwm::tree::{Direction, SplitDirection};

#[test]
fn parse_action_covers_every_command() {
    assert_eq!(
        Command::parse_action("focus-left"),
        Some(Command::Focus {
            direction: Direction::Left
        })
    );
    assert_eq!(
        Command::parse_action("move-window-right"),
        Some(Command::MoveWindow {
            direction: Direction::Right
        })
    );
    assert_eq!(
        Command::parse_action("split-horizontal"),
        Some(Command::Split {
            direction: SplitDirection::Horizontal
        })
    );
    assert_eq!(
        Command::parse_action("split-vertical"),
        Some(Command::Split {
            direction: SplitDirection::Vertical
        })
    );
    assert_eq!(Command::parse_action("close"), Some(Command::Close));
    assert_eq!(
        Command::parse_action("toggle-layout"),
        Some(Command::ToggleLayout)
    );
    assert_eq!(
        Command::parse_action("set-layout-tile"),
        Some(Command::SetLayout {
            mode: LayoutMode::Tile
        })
    );
    assert_eq!(
        Command::parse_action("set-layout-accordion"),
        Some(Command::SetLayout {
            mode: LayoutMode::Accordion
        })
    );
    assert_eq!(
        Command::parse_action("set-gap-outer-12"),
        Some(Command::SetGapOuter { pixels: 12 })
    );
    assert_eq!(
        Command::parse_action("set-gap-inner-6"),
        Some(Command::SetGapInner { pixels: 6 })
    );
    assert_eq!(
        Command::parse_action("toggle-bar"),
        Some(Command::ToggleBar)
    );
    assert_eq!(
        Command::parse_action("reload-config"),
        Some(Command::ReloadConfig)
    );
    assert_eq!(
        Command::parse_action("query-state"),
        Some(Command::QueryState)
    );
    assert_eq!(Command::parse_action("quit"), Some(Command::Quit));
}

#[test]
fn parse_action_ids() {
    assert_eq!(
        Command::parse_action("workspace-3"),
        Some(Command::Workspace { id: 3 })
    );
    assert_eq!(
        Command::parse_action("move-window-to-workspace-5"),
        Some(Command::MoveWindowToWorkspace { id: 5 })
    );
}

#[test]
fn parse_action_rejects_invalid() {
    assert_eq!(Command::parse_action("swap-left"), None);
    assert_eq!(Command::parse_action("workspace-0"), None);
    assert_eq!(Command::parse_action("workspace-"), None);
    assert_eq!(Command::parse_action("do-the-hokey-pokey"), None);
    assert_eq!(Command::parse_action(""), None);
}

#[test]
fn parse_action_accepts_any_positive_id() {
    assert_eq!(
        Command::parse_action("workspace-12"),
        Some(Command::Workspace { id: 12 })
    );
}

#[test]
fn parse_action_numbers_follow_std_parsing() {
    assert_eq!(Command::parse_action("workspace-+7"), Some(Command::Workspace { id: 7 }));
    assert_eq!(Command::parse_action("workspace-4294967295"), Some(Command::Workspace { id: 4294967295 }));
    assert_eq!(Command::parse_action("workspace-4294967296"), None);
    assert_eq!(Command::parse_action("workspace--1"), None);
    assert_eq!(Command::parse_action("workspace- 1"), None);
    assert_eq!(Command::parse_action("set-gap-outer--8"), Some(Command::SetGapOuter { pixels: -8 }));
    assert_eq!(Command::parse_action("set-gap-inner-+3"), Some(Command::SetGapInner { pixels: 3 }));
    assert_eq!(
        Command::parse_action("set-gap-inner--2147483648"),
        Some(Command::SetGapInner { pixels: i32::MIN })
    );
    assert_eq!(Command::parse_action("set-gap-inner-2147483648"), None);
    assert_eq!(Command::parse_action("set-gap-outer-"), None);
    assert_eq!(Command::parse_action("set-gap-outer--"), None);
    assert_eq!(Command::parse_action("set-gap-outer-1x"), None);
}

#[test]
fn parse_action_is_case_sensitive_and_exact() {
    assert_eq!(Command::parse_action("Focus-left"), None);
    assert_eq!(Command::parse_action("focus-left "), None);
    assert_eq!(Command::parse_action("quit!"), None);
}

#[test]
fn text_helpers_parse_decimal() {
    assert_eq!(parse_u32("0"), Some(0));
    assert_eq!(parse_u32("007"), Some(7));
    assert_eq!(parse_u32("+"), None);
    assert_eq!(parse_u32(""), None);
    assert_eq!(parse_i32("-0"), Some(0));
    assert_eq!(parse_i32("2147483647"), Some(i32::MAX));
    assert_eq!(parse_i32("-2147483649"), None);
    assert_eq!(parse_i32("٣"), None);
}

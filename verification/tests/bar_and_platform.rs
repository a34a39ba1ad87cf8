use pengwm::adapter::{
    display_changes, DisplayChange, DisplayInfo, kCGDisplayAddFlag, kCGDisplayRemoveFlag,
    kCGDisplaySetModeFlag,
};
use pengwm::labels::{looks_like_path, ws_label};
use pengwm::platform::{
    active_space_for_display, all_spaces, macos_major_version, NSApplicationProcessIdentifier,
};

#[test]
fn workspace_label_strips_prefix() {
    assert_eq!(ws_label("ws-1"), "1");
    assert_eq!(ws_label("ws-12"), "12");
    assert_eq!(ws_label("main"), "main");
}

#[test]
fn workspace_label_strips_once() {
    assert_eq!(ws_label("ws-ws-2"), "ws-2");
    assert_eq!(ws_label("ws-"), "");
    assert_eq!(ws_label("WS-3"), "WS-3");
}

#[test]
fn theme_paths_are_recognised() {
    assert!(looks_like_path("/etc/theme.toml"));
    assert!(looks_like_path("./mine.toml"));
    assert!(looks_like_path("~/themes/x.toml"));
    assert!(looks_like_path("themes/x.toml"));
    assert!(!looks_like_path("tokyo-night"));
    assert!(!looks_like_path(""));
}

#[test]
fn display_info_struct_size() {
    assert_eq!(std::mem::size_of::<DisplayInfo>(), 20); // u32 + (i32,i32) + (u32,u32)
}

#[test]
fn display_flag_constants() {
    assert_eq!(kCGDisplayAddFlag, 1);
    assert_eq!(kCGDisplayRemoveFlag, 2);
    assert_eq!(kCGDisplaySetModeFlag, 8);
}

#[test]
fn display_changes_follow_flags() {
    assert_eq!(display_changes(7, 0), vec![]);
    assert_eq!(display_changes(7, 1), vec![DisplayChange::Added(7)]);
    assert_eq!(
        display_changes(3, 1 | 2 | 8 | 4),
        vec![DisplayChange::Added(3), DisplayChange::Removed(3), DisplayChange::Resized(3)]
    );
}

#[test]
fn process_identifier_constant() {
    assert_eq!(
        NSApplicationProcessIdentifier,
        "NSApplicationProcessIdentifier"
    );
}

#[test]
fn platform_fallbacks() {
    assert_eq!(macos_major_version(), 0);
    assert!(all_spaces().is_empty());
    assert_eq!(active_space_for_display(1), None);
}

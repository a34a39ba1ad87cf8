use std::collections::HashMap;

use pengwm::adapter::DisplayInfo;
use pengwm::settings::{default_workspaces, WorkspaceEntry};
use pengwm::state::display::DisplaySet;
use pengwm::state::router::Router;
use pengwm::workspace::Workspace;

fn entries_default() -> Vec<WorkspaceEntry> {
    default_workspaces()
}

fn displays_two() -> DisplayInfo {
    DisplayInfo {
        id: 1,
        origin: (0, 0),
        size: (1920, 1080),
    }
}

#[test]
fn find_next_wraps_within_monitor() {
    let r = Router::new(2);
    let mut wss = vec![
        Workspace::new("a".into(), 1, (0, 0), (1920, 1080)),
        Workspace::new("b".into(), 1, (0, 0), (1920, 1080)),
        Workspace::new("c".into(), 2, (1920, 0), (1920, 1080)),
    ];
    wss[0].add_window(1, None);
    wss[0].add_window(2, None);
    // wss[0] full, next on same monitor is 1
    assert_eq!(r.find_next_with_capacity(&wss, 0), Some(1));
}

#[test]
fn find_next_none_when_monitor_full() {
    let r = Router::new(1);
    let mut wss = vec![
        Workspace::new("a".into(), 1, (0, 0), (1920, 1080)),
        Workspace::new("b".into(), 2, (1920, 0), (1920, 1080)),
    ];
    wss[0].add_window(1, None);
    assert_eq!(r.find_next_with_capacity(&wss, 0), None);
    // The start itself is considered last.
    assert_eq!(r.find_next_with_capacity(&wss, 1), Some(1));
    assert_eq!(r.find_next_with_capacity(&Vec::new(), 0), None);
}

#[test]
fn max_tiles_is_at_least_one() {
    let mut r = Router::new(0);
    assert_eq!(r.max_tiles(), 1);
    r.set_max_tiles(6);
    assert_eq!(r.max_tiles(), 6);
    r.set_max_tiles(0);
    assert_eq!(r.max_tiles(), 1);
}

#[test]
fn configured_name_matches_bundle_case_insensitive() {
    let r = Router::new(4);
    let entries = entries_default();
    let name = r
        .configured_workspace_name(&Some("com.google.Chrome".into()), &None, &entries)
        .unwrap();
    assert_eq!(name, "Browsing");
}

#[test]
fn configured_name_matches_app_name() {
    let r = Router::new(4);
    let entries = entries_default();
    let name = r
        .configured_workspace_name(&None, &Some("spotify".into()), &entries)
        .unwrap();
    assert_eq!(name, "Music");
}

#[test]
fn configured_name_none_for_unknown_app() {
    let r = Router::new(4);
    let entries = entries_default();
    assert_eq!(r.configured_workspace_name(&Some("org.example".into()), &None, &entries), None);
    assert_eq!(r.configured_workspace_name(&Some("Safari".into()), &None, &[]), None);
}

#[test]
fn routed_idx_on_active_monitor() {
    let r = Router::new(4);
    let entries = entries_default();
    let wss = vec![
        Workspace::new("Development".into(), 1, (0, 0), (1920, 1080)),
        Workspace::new("Browsing".into(), 1, (0, 0), (1920, 1080)),
    ];
    // active is 0 (Development), but Safari routes to Browsing (index 1)
    let idx = r.routed_workspace_idx(&wss, 0, &Some("com.apple.Safari".into()), &None, &entries);
    assert_eq!(idx, Some(1));
    assert_eq!(r.routed_workspace_idx(&wss, 5, &Some("com.apple.Safari".into()), &None, &entries), None);
}

#[test]
fn active_idx_falls_back_when_frontmost_has_no_window() {
    let r = Router::new(4);
    let mut ds = DisplaySet::new(entries_default());
    let mut wss = Vec::new();
    ds.init_workspaces(&mut wss, &[displays_two()]);
    let pid_to_windows: HashMap<i32, Vec<u64>> = HashMap::new();
    let idx = r.active_workspace_idx(&wss, &pid_to_windows, Some(99), &ds);
    assert_eq!(idx, 0);
}

#[test]
fn active_idx_follows_frontmost_window_display() {
    let r = Router::new(4);
    let mut ds = DisplaySet::new(entries_default());
    let mut wss = Vec::new();
    let displays = vec![
        displays_two(),
        DisplayInfo { id: 2, origin: (1920, 0), size: (1920, 1080) },
    ];
    ds.init_workspaces(&mut wss, &displays);
    wss[6].add_window(42, None);
    let mut pid_to_windows: HashMap<i32, Vec<u64>> = HashMap::new();
    pid_to_windows.insert(7, vec![41, 42]);
    // Window 42 is on display 2, which shows workspace 5.
    assert_eq!(r.active_workspace_idx(&wss, &pid_to_windows, Some(7), &ds), 5);
}

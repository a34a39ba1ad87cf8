use std::collections::HashMap;

use pengwm::adapter::DisplayInfo;
use pengwm::command::{Command, DaemonResponse, LayoutMode};
use pengwm::config::{BarConfig, BarPosition};
use pengwm::manager::{BarSignal, Effect, StateManager, WindowReport};
use pengwm::settings::Settings;
use pengwm::state::session::sanitize_workspace;
use pengwm::workspace::Workspace;
use pengwm::tree::{Direction, SplitDirection, WindowId};

fn displays(count: u32) -> Vec<DisplayInfo> {
    let mut out = Vec::new();
    if count >= 1 {
        out.push(DisplayInfo {
            id: 1,
            origin: (0, 0),
            size: (1920, 1080),
        });
    }
    if count >= 2 {
        out.push(DisplayInfo {
            id: 2,
            origin: (1920, 0),
            size: (1920, 1080),
        });
    }
    out
}

fn primary(count: u32) -> u32 {
    if count == 0 {
        0
    } else {
        1
    }
}

/// App 42 is frontmost and running with windows 100 and 200.
fn setup(count: u32) -> StateManager {
    let apps: Vec<(i32, Vec<WindowId>)> = vec![(42, vec![100, 200])];
    let (sm, _) = StateManager::new(
        &displays(count),
        primary(count),
        Settings::default(),
        Some(42),
        &apps,
        None,
        vec![],
        0,
    );
    sm
}

fn created(sm: &mut StateManager, w: WindowId, pid: i32) -> Vec<Effect> {
    sm.on_window_created(w, pid, &None, &None)
}

fn command(sm: &mut StateManager, cmd: Command, count: u32) -> Vec<Effect> {
    sm.on_command(cmd, &displays(count), primary(count), 0)
}

fn holds(sm: &StateManager, idx: usize, w: WindowId) -> bool {
    sm.workspaces()[idx].find_window(w).is_some()
}

/// Tick past the reconciliation interval and answer the check with `hidden`.
fn tick_and_reconcile(sm: &mut StateManager, hidden: &dyn Fn(WindowId) -> bool) {
    let effects = sm.on_tick(10_000);
    assert!(effects.iter().any(|e| matches!(e, Effect::CheckHidden)));
    let reports: Vec<WindowReport> = sm
        .window_pids()
        .keys()
        .map(|&w| WindowReport {
            window: w,
            hidden: hidden(w),
            bundle: None,
            app_name: None,
        })
        .collect();
    sm.reconcile_hidden_windows(&reports);
}

fn check_creates_workspaces_from_displays() {
    let sm = setup(1);
    let names: Vec<&str> = sm.workspaces().iter().map(|w| w.name().as_str()).collect();
    assert_eq!(
        names,
        vec!["Development", "Browsing", "Notes", "Music", "Messaging"]
    );
    assert!(sm.workspaces().iter().all(|w| w.monitor_id() == 1));
}

#[test]
fn mod_creates_workspaces_from_displays() {
    check_creates_workspaces_from_displays();
}

#[test]
fn state_creates_workspaces_from_displays() {
    check_creates_workspaces_from_displays();
}

fn check_creates_workspace_set_per_display() {
    let sm = setup(2);
    assert_eq!(sm.workspaces().len(), 10);
    assert!(sm.workspaces()[..5].iter().all(|w| w.monitor_id() == 1));
    assert!(sm.workspaces()[5..].iter().all(|w| w.monitor_id() == 2));
    assert_eq!(sm.displays().active().get(&1), Some(&0));
    assert_eq!(sm.displays().active().get(&2), Some(&5));
}

#[test]
fn mod_creates_workspace_set_per_display() {
    check_creates_workspace_set_per_display();
}

#[test]
fn state_creates_workspace_set_per_display() {
    check_creates_workspace_set_per_display();
}

fn check_tracks_existing_windows_at_init() {
    let sm = setup(1);
    assert_eq!(sm.window_pids().len(), 2);
    assert_eq!(sm.window_pids().get(&100), Some(&42));
    assert_eq!(sm.window_pids().get(&200), Some(&42));
    assert_eq!(sm.workspaces()[0].window_count(), 0);
}

#[test]
fn mod_tracks_existing_windows_at_init() {
    check_tracks_existing_windows_at_init();
}

#[test]
fn state_tracks_existing_windows_at_init() {
    check_tracks_existing_windows_at_init();
}

fn check_on_window_created_tracks_pid_and_adds_to_workspace() {
    let mut sm = setup(1);
    created(&mut sm, 300, 42);
    assert_eq!(sm.window_pids().get(&300), Some(&42));
    assert!(holds(&sm, 0, 300));
}

#[test]
fn mod_on_window_created_tracks_pid_and_adds_to_workspace() {
    check_on_window_created_tracks_pid_and_adds_to_workspace();
}

#[test]
fn state_on_window_created_tracks_pid_and_adds_to_workspace() {
    check_on_window_created_tracks_pid_and_adds_to_workspace();
}

fn check_on_window_destroyed_removes_tracking_and_window() {
    let mut sm = setup(1);
    sm.on_window_destroyed(100);
    assert!(!sm.window_pids().contains_key(&100));
    assert!(!holds(&sm, 0, 100));
}

#[test]
fn mod_on_window_destroyed_removes_tracking_and_window() {
    check_on_window_destroyed_removes_tracking_and_window();
}

#[test]
fn state_on_window_destroyed_removes_tracking_and_window() {
    check_on_window_destroyed_removes_tracking_and_window();
}

fn check_on_window_focused_updates_active_workspace() {
    let mut sm = setup(1);
    created(&mut sm, 300, 42);
    sm.on_window_focused(300, 0);
    let ws = &sm.workspaces()[0];
    assert_eq!(ws.focused_node(), ws.find_window(300));
}

#[test]
fn mod_on_window_focused_updates_active_workspace() {
    check_on_window_focused_updates_active_workspace();
}

#[test]
fn state_on_window_focused_updates_active_workspace() {
    check_on_window_focused_updates_active_workspace();
}

fn check_on_app_launched_attaches_observer_and_tracks_windows() {
    let mut sm = setup(1);
    let effects = sm.on_app_launched(99, &vec![]);
    assert!(effects.iter().any(|e| matches!(e, Effect::AttachObserver(99))));
    assert!(!sm.pid_to_windows().contains_key(&99));
}

#[test]
fn mod_on_app_launched_attaches_observer_and_tracks_windows() {
    check_on_app_launched_attaches_observer_and_tracks_windows();
}

#[test]
fn state_on_app_launched_attaches_observer_and_tracks_windows() {
    check_on_app_launched_attaches_observer_and_tracks_windows();
}

fn check_on_app_terminated_detaches_observer_and_cleans_windows() {
    let mut sm = setup(1);
    assert!(sm.window_pids().contains_key(&100));
    let effects = sm.on_app_terminated(42);
    assert!(matches!(effects[0], Effect::DetachObserver(42)));
    assert!(!sm.window_pids().contains_key(&100));
    assert!(!sm.window_pids().contains_key(&200));
}

#[test]
fn mod_on_app_terminated_detaches_observer_and_cleans_windows() {
    check_on_app_terminated_detaches_observer_and_cleans_windows();
}

#[test]
fn state_on_app_terminated_detaches_observer_and_cleans_windows() {
    check_on_app_terminated_detaches_observer_and_cleans_windows();
}

fn check_on_app_activated_updates_frontmost_pid() {
    let mut sm = setup(1);
    sm.on_app_activated(99, None, 0);
    assert_eq!(sm.frontmost_pid(), Some(99));
}

#[test]
fn mod_on_app_activated_updates_frontmost_pid() {
    check_on_app_activated_updates_frontmost_pid();
}

#[test]
fn state_on_app_activated_updates_frontmost_pid() {
    check_on_app_activated_updates_frontmost_pid();
}

fn check_on_window_hidden_removes_from_tree_but_keeps_pid() {
    let mut sm = setup(1);
    created(&mut sm, 100, 42);
    created(&mut sm, 200, 42);
    assert_eq!(sm.workspaces()[0].window_count(), 2);
    sm.on_window_hidden(100);
    assert!(!holds(&sm, 0, 100));
    assert_eq!(sm.window_pids().get(&100), Some(&42));
    assert_eq!(sm.hidden().get(100), Some(0));
    assert_eq!(sm.workspaces()[0].window_count(), 1);
}

#[test]
fn mod_on_window_hidden_removes_from_tree_but_keeps_pid() {
    check_on_window_hidden_removes_from_tree_but_keeps_pid();
}

#[test]
fn state_on_window_hidden_removes_from_tree_but_keeps_pid() {
    check_on_window_hidden_removes_from_tree_but_keeps_pid();
}

fn check_on_window_shown_retiles_into_original_workspace() {
    let mut sm = setup(1);
    created(&mut sm, 100, 42);
    created(&mut sm, 200, 42);
    sm.on_window_hidden(100);
    sm.on_window_shown(100, &None, &None);
    assert!(holds(&sm, 0, 100));
    assert!(!sm.hidden().contains(100));
    assert_eq!(sm.workspaces()[0].window_count(), 2);
}

#[test]
fn mod_on_window_shown_retiles_into_original_workspace() {
    check_on_window_shown_retiles_into_original_workspace();
}

#[test]
fn state_on_window_shown_retiles_into_original_workspace() {
    check_on_window_shown_retiles_into_original_workspace();
}

fn check_on_window_shown_ignores_untracked_window() {
    let mut sm = setup(1);
    sm.on_window_shown(999, &None, &None);
    assert!(!holds(&sm, 0, 999));
}

#[test]
fn mod_on_window_shown_ignores_untracked_window() {
    check_on_window_shown_ignores_untracked_window();
}

#[test]
fn state_on_window_shown_ignores_untracked_window() {
    check_on_window_shown_ignores_untracked_window();
}

fn check_on_window_shown_skips_window_already_tracked() {
    let mut sm = setup(1);
    created(&mut sm, 100, 42);
    sm.on_window_shown(100, &None, &None);
    assert_eq!(sm.workspaces()[0].window_count(), 1);
}

#[test]
fn mod_on_window_shown_skips_window_already_tracked() {
    check_on_window_shown_skips_window_already_tracked();
}

#[test]
fn state_on_window_shown_skips_window_already_tracked() {
    check_on_window_shown_skips_window_already_tracked();
}

fn check_destroyed_hidden_window_cleans_hidden_workspace() {
    let mut sm = setup(1);
    created(&mut sm, 100, 42);
    sm.on_window_hidden(100);
    assert!(sm.hidden().contains(100));
    sm.on_window_destroyed(100);
    assert!(!sm.hidden().contains(100));
    assert!(!sm.window_pids().contains_key(&100));
}

#[test]
fn mod_destroyed_hidden_window_cleans_hidden_workspace() {
    check_destroyed_hidden_window_cleans_hidden_workspace();
}

#[test]
fn state_destroyed_hidden_window_cleans_hidden_workspace() {
    check_destroyed_hidden_window_cleans_hidden_workspace();
}

#[test]
fn reconcile_untiles_windows_reported_hidden() {
    let mut sm = setup(1);
    created(&mut sm, 100, 42);
    created(&mut sm, 200, 42);
    tick_and_reconcile(&mut sm, &|w| w == 100);
    assert!(!holds(&sm, 0, 100));
    assert_eq!(sm.hidden().get(100), Some(0));
    assert_eq!(sm.workspaces()[0].window_count(), 1);
}

#[test]
fn reconcile_retiles_windows_when_visible_again() {
    let mut sm = setup(1);
    created(&mut sm, 100, 42);
    sm.on_window_hidden(100);
    assert!(sm.hidden().contains(100));
    tick_and_reconcile(&mut sm, &|_| false);
    assert!(holds(&sm, 0, 100));
    assert!(!sm.hidden().contains(100));
}

#[test]
fn reconcile_hides_windows_when_app_is_hidden() {
    let mut sm = setup(1);
    created(&mut sm, 100, 42);
    created(&mut sm, 200, 42);
    // Every window of app 42 is reported hidden.
    let pids: HashMap<WindowId, i32> = sm.window_pids().clone();
    tick_and_reconcile(&mut sm, &|w| pids.get(&w) == Some(&42));
    assert!(!holds(&sm, 0, 100));
    assert!(!holds(&sm, 0, 200));
    assert_eq!(sm.workspaces()[0].window_count(), 0);
}

fn check_focus_command_delegates_to_workspace() {
    let mut sm = setup(1);
    created(&mut sm, 100, 42);
    created(&mut sm, 300, 42);
    sm.focus_command(Direction::Right);
    assert!(sm.workspaces()[0].focused_node().is_some());
}

#[test]
fn mod_focus_command_delegates_to_workspace() {
    check_focus_command_delegates_to_workspace();
}

#[test]
fn state_focus_command_delegates_to_workspace() {
    check_focus_command_delegates_to_workspace();
}

fn check_focus_command_focuses_window_via_adapter() {
    let mut sm = setup(1);
    created(&mut sm, 100, 42);
    created(&mut sm, 200, 42);
    assert_eq!(sm.workspaces()[0].focused_window_id(), Some(200));
    let effects = sm.focus_command(Direction::Right);
    assert_eq!(sm.workspaces()[0].focused_window_id(), Some(100));
    assert!(
        effects.iter().any(|e| matches!(e, Effect::FocusWindow(100))),
        "the system should be told to focus the new window"
    );
}

#[test]
fn mod_focus_command_focuses_window_via_adapter() {
    check_focus_command_focuses_window_via_adapter();
}

#[test]
fn state_focus_command_focuses_window_via_adapter() {
    check_focus_command_focuses_window_via_adapter();
}

fn check_swap_command_triggers_layout() {
    let mut sm = setup(1);
    created(&mut sm, 100, 42);
    created(&mut sm, 300, 42);
    let effects = sm.swap_command(Direction::Right);
    assert!(effects.iter().any(|e| matches!(e, Effect::ApplyLayout(0))));
    assert_eq!(sm.workspaces()[0].window_count(), 2);
}

#[test]
fn mod_swap_command_triggers_layout() {
    check_swap_command_triggers_layout();
}

#[test]
fn state_swap_command_triggers_layout() {
    check_swap_command_triggers_layout();
}

fn check_close_command_invokes_adapter() {
    let mut sm = setup(1);
    created(&mut sm, 100, 42);
    created(&mut sm, 300, 42);
    assert!(sm.workspaces()[0].focused_node().is_some());
    let effects = command(&mut sm, Command::Close, 1);
    assert!(effects.iter().any(|e| matches!(e, Effect::CloseWindow(300))));
}

#[test]
fn mod_close_command_invokes_adapter() {
    check_close_command_invokes_adapter();
}

#[test]
fn state_close_command_invokes_adapter() {
    check_close_command_invokes_adapter();
}

fn check_move_focused_to_workspace_moves_window() {
    let mut sm = setup(2);
    assert_eq!(sm.workspaces().len(), 10);
    created(&mut sm, 100, 42);
    created(&mut sm, 300, 42);
    let source = sm
        .workspaces()
        .iter()
        .position(|ws| ws.find_window(100).is_some())
        .expect("window 100 should be in some workspace");
    assert_eq!(sm.workspaces()[source].window_count(), 2);
    let target = if source == 0 { 1 } else { 0 };
    sm.move_focused_to_workspace(target);
    assert_eq!(sm.workspaces()[source].window_count(), 1);
    assert_eq!(sm.workspaces()[target].window_count(), 1);
}

#[test]
fn mod_move_focused_to_workspace_moves_window() {
    check_move_focused_to_workspace_moves_window();
}

#[test]
fn state_move_focused_to_workspace_moves_window() {
    check_move_focused_to_workspace_moves_window();
}

fn check_created_window_overflows_to_next_workspace() {
    let mut sm = setup(2);
    sm.set_max_tiles(2);
    sm.add_window_at(0, 100);
    sm.add_window_at(0, 200);
    sm.add_window_at(1, 300);
    created(&mut sm, 400, 42);
    assert!(!holds(&sm, 0, 400));
    assert!(holds(&sm, 1, 400), "full ws-0 should overflow into ws-1");
    assert_eq!(sm.workspaces()[0].window_count(), 2);
    assert_eq!(sm.workspaces()[1].window_count(), 2);
}

#[test]
fn mod_created_window_overflows_to_next_workspace() {
    check_created_window_overflows_to_next_workspace();
}

#[test]
fn state_created_window_overflows_to_next_workspace() {
    check_created_window_overflows_to_next_workspace();
}

fn fill_all(sm: &mut StateManager) {
    for i in 0..sm.workspaces().len() {
        sm.add_window_at(i, (1000 + i * 2) as WindowId);
        sm.add_window_at(i, (1001 + i * 2) as WindowId);
    }
}

fn check_created_window_all_workspaces_full_stays_untracked() {
    let mut sm = setup(1);
    sm.set_max_tiles(2);
    fill_all(&mut sm);
    created(&mut sm, 400, 42);
    assert!(
        sm.workspaces().iter().all(|ws| ws.find_window(400).is_none()),
        "no workspace has room, so the window stays untracked"
    );
    assert_eq!(sm.window_pids().get(&400), Some(&42), "still pid-tracked");
}

#[test]
fn mod_created_window_all_workspaces_full_stays_untracked() {
    check_created_window_all_workspaces_full_stays_untracked();
}

#[test]
fn state_created_window_all_workspaces_full_stays_untracked() {
    check_created_window_all_workspaces_full_stays_untracked();
}

fn check_created_window_overflow_wraps_to_first_workspace() {
    let mut sm = setup(1);
    sm.set_max_tiles(2);
    sm.add_window_at(1, 300);
    sm.add_window_at(1, 500);
    sm.add_window_at(2, 301);
    sm.add_window_at(2, 501);
    sm.add_window_at(3, 302);
    sm.add_window_at(3, 502);
    sm.add_window_at(4, 303);
    sm.add_window_at(4, 503);
    command(&mut sm, Command::Workspace { id: 2 }, 1);
    sm.set_app_windows(42, vec![300]);
    created(&mut sm, 400, 42);
    assert_eq!(sm.active_workspace_idx(), 1, "ws-1 should be active");
    assert!(holds(&sm, 0, 400), "full ws-1 should wrap around into ws-0");
}

#[test]
fn mod_created_window_overflow_wraps_to_first_workspace() {
    check_created_window_overflow_wraps_to_first_workspace();
}

#[test]
fn state_created_window_overflow_wraps_to_first_workspace() {
    check_created_window_overflow_wraps_to_first_workspace();
}

fn check_move_to_full_workspace_redirects_to_next_with_room() {
    let mut sm = setup(2);
    sm.set_max_tiles(2);
    sm.add_window_at(0, 100);
    sm.add_window_at(1, 300);
    sm.add_window_at(1, 500);
    sm.set_app_windows(42, vec![100]);
    sm.on_window_focused(100, 0);
    sm.move_focused_to_workspace(1);
    assert_eq!(sm.workspaces()[0].window_count(), 0);
    assert_eq!(sm.workspaces()[1].window_count(), 2);
    assert!(holds(&sm, 2, 100), "move to full ws-1 should land in ws-3");
}

#[test]
fn mod_move_to_full_workspace_redirects_to_next_with_room() {
    check_move_to_full_workspace_redirects_to_next_with_room();
}

#[test]
fn state_move_to_full_workspace_redirects_to_next_with_room() {
    check_move_to_full_workspace_redirects_to_next_with_room();
}

fn check_move_to_full_workspace_aborts_when_no_room_anywhere() {
    let mut sm = setup(1);
    sm.set_max_tiles(2);
    fill_all(&mut sm);
    sm.set_app_windows(42, vec![1000]);
    sm.on_window_focused(1000, 0);
    sm.move_focused_to_workspace(1);
    assert!(
        holds(&sm, 0, 1000),
        "window should stay put when all workspaces are full"
    );
    assert!(sm.workspaces().iter().all(|ws| ws.window_count() == 2));
}

#[test]
fn mod_move_to_full_workspace_aborts_when_no_room_anywhere() {
    check_move_to_full_workspace_aborts_when_no_room_anywhere();
}

#[test]
fn state_move_to_full_workspace_aborts_when_no_room_anywhere() {
    check_move_to_full_workspace_aborts_when_no_room_anywhere();
}

fn check_toggle_layout_switches_monocle() {
    let mut sm = setup(1);
    assert!(!sm.workspaces()[0].monocle());
    command(&mut sm, Command::ToggleLayout, 1);
    assert!(sm.workspaces()[0].monocle());
}

#[test]
fn mod_toggle_layout_switches_monocle() {
    check_toggle_layout_switches_monocle();
}

#[test]
fn state_toggle_layout_switches_monocle() {
    check_toggle_layout_switches_monocle();
}

fn check_set_gap_updates_values() {
    let mut sm = setup(1);
    command(&mut sm, Command::SetGapOuter { pixels: 20 }, 1);
    assert_eq!(sm.gaps().0, 20);
}

#[test]
fn mod_set_gap_updates_values() {
    check_set_gap_updates_values();
}

#[test]
fn state_set_gap_updates_values() {
    check_set_gap_updates_values();
}

fn check_split_command_pends_direction_for_next_window() {
    let mut sm = setup(1);
    created(&mut sm, 100, 42);
    command(
        &mut sm,
        Command::Split {
            direction: SplitDirection::Horizontal,
        },
        1,
    );
    created(&mut sm, 200, 42);
    assert_eq!(
        sm.workspaces()[0].focused_split_direction(),
        Some(SplitDirection::Horizontal),
        "split issued on a focused window becomes the next window's parent direction"
    );
}

#[test]
fn mod_split_command_pends_direction_for_next_window() {
    check_split_command_pends_direction_for_next_window();
}

#[test]
fn state_split_command_pends_direction_for_next_window() {
    check_split_command_pends_direction_for_next_window();
}

fn check_query_state_returns_workspace_info() {
    let mut sm = setup(1);
    created(&mut sm, 100, 42);
    let effects = command(&mut sm, Command::QueryState, 1);
    let reply = effects.iter().find_map(|e| match e {
        Effect::Reply(r) => Some(r),
        _ => None,
    });
    assert!(reply.is_some());
}

#[test]
fn mod_query_state_returns_workspace_info() {
    check_query_state_returns_workspace_info();
}

#[test]
fn state_query_state_returns_workspace_info() {
    check_query_state_returns_workspace_info();
}

fn all_commands() -> Vec<Command> {
    vec![
        Command::Focus {
            direction: Direction::Left,
        },
        Command::MoveWindow {
            direction: Direction::Right,
        },
        Command::Split {
            direction: SplitDirection::Vertical,
        },
        Command::Workspace { id: 1 },
        Command::MoveWindowToWorkspace { id: 2 },
        Command::FocusDisplay {
            direction: Direction::Left,
        },
        Command::MoveWindowToDisplay {
            direction: Direction::Right,
        },
        Command::Close,
        Command::ToggleLayout,
        Command::SetLayout {
            mode: LayoutMode::Accordion,
        },
        Command::SetGapOuter { pixels: 4 },
        Command::SetGapInner { pixels: 2 },
        Command::ToggleBar,
        Command::ReloadConfig,
        Command::QueryState,
        Command::Quit,
    ]
}

fn check_on_command_handles_every_variant_without_reply() {
    for cmd in all_commands() {
        let mut sm = setup(1);
        command(&mut sm, cmd, 1);
    }
}

#[test]
fn mod_on_command_handles_every_variant_without_reply() {
    check_on_command_handles_every_variant_without_reply();
}

#[test]
fn state_on_command_handles_every_variant_without_reply() {
    check_on_command_handles_every_variant_without_reply();
}

fn check_on_command_sends_ack_only_when_reply_slot_is_present() {
    let mut sm = setup(1);
    let effects = command(&mut sm, Command::ToggleLayout, 1);
    let replies: Vec<&Effect> = effects.iter().filter(|e| matches!(e, Effect::Reply(_))).collect();
    assert_eq!(replies.len(), 1);
    assert!(matches!(replies[0], Effect::Reply(DaemonResponse::Ack)));
    assert!(sm.workspaces()[0].monocle());

    let mut sm = setup(1);
    let n = sm.workspaces().len();
    let effects = command(&mut sm, Command::QueryState, 1);
    assert_eq!(effects.len(), 1);
    match &effects[0] {
        Effect::Reply(DaemonResponse::State { workspaces }) => assert_eq!(workspaces.len(), n),
        other => panic!("unexpected effect {:?}", other),
    }
}

#[test]
fn mod_on_command_sends_ack_only_when_reply_slot_is_present() {
    check_on_command_sends_ack_only_when_reply_slot_is_present();
}

#[test]
fn state_on_command_sends_ack_only_when_reply_slot_is_present() {
    check_on_command_sends_ack_only_when_reply_slot_is_present();
}

fn bar_config(position: BarPosition, thickness: i32) -> BarConfig {
    BarConfig {
        position,
        thickness,
        visible: true,
        enabled: true,
        ..Default::default()
    }
}

fn check_bar_reserved_rect_top_strip_on_primary_display() {
    let mut sm = setup(1);
    *sm.bar_mut().config_mut() = bar_config(BarPosition::Top, 24);
    sm.bar_mut().set_spawned(true);
    sm.bar_mut().set_visible(true);
    let rect = sm.bar_reserved_rect(1, &displays(1)).unwrap();
    assert_eq!((rect.x, rect.y, rect.width, rect.height), (0, 0, 1920, 24));
}

#[test]
fn mod_bar_reserved_rect_top_strip_on_primary_display() {
    check_bar_reserved_rect_top_strip_on_primary_display();
}

#[test]
fn state_bar_reserved_rect_top_strip_on_primary_display() {
    check_bar_reserved_rect_top_strip_on_primary_display();
}

fn check_bar_reserved_rect_bottom_and_right() {
    let mut sm = setup(1);
    sm.bar_mut().set_spawned(true);
    sm.bar_mut().set_visible(true);
    *sm.bar_mut().config_mut() = bar_config(BarPosition::Bottom, 30);
    let rect = sm.bar_reserved_rect(1, &displays(1)).unwrap();
    assert_eq!((rect.x, rect.y), (0, 1080 - 30));
    assert_eq!((rect.width, rect.height), (1920, 30));

    sm.bar_mut().config_mut().position = BarPosition::Right;
    sm.bar_mut().config_mut().thickness = 40;
    let rect = sm.bar_reserved_rect(1, &displays(1)).unwrap();
    assert_eq!((rect.x, rect.y), (1920 - 40, 0));
    assert_eq!((rect.width, rect.height), (40, 1080));
}

#[test]
fn mod_bar_reserved_rect_bottom_and_right() {
    check_bar_reserved_rect_bottom_and_right();
}

#[test]
fn state_bar_reserved_rect_bottom_and_right() {
    check_bar_reserved_rect_bottom_and_right();
}

fn check_bar_reserved_rect_none_when_hidden() {
    let mut sm = setup(1);
    sm.bar_mut().set_visible(false);
    assert_eq!(sm.bar_reserved_rect(1, &displays(1)), None);
}

#[test]
fn mod_bar_reserved_rect_none_when_hidden() {
    check_bar_reserved_rect_none_when_hidden();
}

#[test]
fn state_bar_reserved_rect_none_when_hidden() {
    check_bar_reserved_rect_none_when_hidden();
}

fn check_bar_reserved_rect_none_when_not_spawned() {
    let mut sm = setup(1);
    sm.bar_mut().set_visible(true);
    sm.bar_mut().set_spawned(false);
    assert_eq!(sm.bar_reserved_rect(1, &displays(1)), None);
}

#[test]
fn mod_bar_reserved_rect_none_when_not_spawned() {
    check_bar_reserved_rect_none_when_not_spawned();
}

#[test]
fn state_bar_reserved_rect_none_when_not_spawned() {
    check_bar_reserved_rect_none_when_not_spawned();
}

fn check_apply_bar_reservation_reserves_primary_workspace() {
    let mut sm = setup(2);
    sm.bar_mut().set_spawned(true);
    sm.bar_mut().set_visible(true);
    *sm.bar_mut().config_mut() = bar_config(BarPosition::Top, 20);
    sm.apply_bar_reservation(1, &displays(2));
    assert!(
        sm.workspaces()[0].reserved_rect().is_some(),
        "primary monitor workspace should be reserved"
    );
    assert!(
        sm.workspaces()[5].reserved_rect().is_none(),
        "secondary monitor workspace should not be reserved"
    );
    sm.bar_mut().set_visible(false);
    sm.apply_bar_reservation(1, &displays(2));
    assert!(sm.workspaces()[0].reserved_rect().is_none());
}

#[test]
fn mod_apply_bar_reservation_reserves_primary_workspace() {
    check_apply_bar_reservation_reserves_primary_workspace();
}

#[test]
fn state_apply_bar_reservation_reserves_primary_workspace() {
    check_apply_bar_reservation_reserves_primary_workspace();
}

fn check_toggle_bar_command_flips_visibility_and_reservation() {
    let mut sm = setup(1);
    sm.bar_mut().set_spawned(true);
    let was_visible = sm.bar().is_visible();
    command(&mut sm, Command::ToggleBar, 1);
    assert_ne!(sm.bar().is_visible(), was_visible);
    assert_eq!(
        sm.bar_reserved_rect(1, &displays(1)).is_some(),
        sm.bar().is_visible()
    );
}

#[test]
fn mod_toggle_bar_command_flips_visibility_and_reservation() {
    check_toggle_bar_command_flips_visibility_and_reservation();
}

#[test]
fn state_toggle_bar_command_flips_visibility_and_reservation() {
    check_toggle_bar_command_flips_visibility_and_reservation();
}

fn check_publish_bar_state_reports_active_workspace_and_split() {
    let mut sm = setup(1);
    created(&mut sm, 100, 42);
    created(&mut sm, 200, 42);
    let state = sm.bar_state(&HashMap::new(), 1, &displays(1));
    assert_eq!(state.workspaces.len(), 5);
    assert_eq!(state.workspaces[0].window_count, 2);
    assert!(state.workspaces[0].active);
    assert_eq!(
        state.split_direction,
        Some(SplitDirection::Vertical),
        "two windows on a widescreen monitor split vertically"
    );
}

#[test]
fn mod_publish_bar_state_reports_active_workspace_and_split() {
    check_publish_bar_state_reports_active_workspace_and_split();
}

#[test]
fn state_publish_bar_state_reports_active_workspace_and_split() {
    check_publish_bar_state_reports_active_workspace_and_split();
}

fn check_publish_bar_state_populates_window_app_names() {
    let mut sm = setup(1);
    let safari_bundle = Some(String::from("com.apple.Safari"));
    let safari_name = Some(String::from("Safari"));
    sm.on_window_created(100, 42, &safari_bundle, &safari_name);
    sm.on_window_created(300, 43, &None, &None);
    // Labels by app: the display name, else the bundle id; app 43 has
    // neither.
    let mut labels: HashMap<i32, String> = HashMap::new();
    labels.insert(42, String::from("Safari"));
    let state = sm.bar_state(&labels, 1, &displays(1));
    assert_eq!(state.workspaces[0].windows, vec!["unknown"]);
    assert_eq!(state.workspaces[1].windows, vec!["Safari"]);
}

#[test]
fn mod_publish_bar_state_populates_window_app_names() {
    check_publish_bar_state_populates_window_app_names();
}

#[test]
fn state_publish_bar_state_populates_window_app_names() {
    check_publish_bar_state_populates_window_app_names();
}

fn workspace_holding(sm: &StateManager, w: WindowId) -> usize {
    sm.workspaces()
        .iter()
        .position(|ws| ws.find_window(w).is_some())
        .expect("routed window should be tracked")
}

fn check_on_window_created_routes_configured_app_to_its_workspace() {
    let mut sm = setup(1);
    let bundle = Some(String::from("com.google.Chrome"));
    let name = Some(String::from("Chrome"));
    sm.on_window_created(777, 77, &bundle, &name);
    let idx = workspace_holding(&sm, 777);
    assert_eq!(sm.workspaces()[idx].name(), "Browsing");
}

#[test]
fn mod_on_window_created_routes_configured_app_to_its_workspace() {
    check_on_window_created_routes_configured_app_to_its_workspace();
}

#[test]
fn state_on_window_created_routes_configured_app_to_its_workspace() {
    check_on_window_created_routes_configured_app_to_its_workspace();
}

fn check_on_window_created_routing_matches_app_name_case_insensitively() {
    let mut sm = setup(1);
    let name = Some(String::from("spotify"));
    sm.on_window_created(888, 88, &None, &name);
    let idx = workspace_holding(&sm, 888);
    assert_eq!(sm.workspaces()[idx].name(), "Music");
}

#[test]
fn mod_on_window_created_routing_matches_app_name_case_insensitively() {
    check_on_window_created_routing_matches_app_name_case_insensitively();
}

#[test]
fn state_on_window_created_routing_matches_app_name_case_insensitively() {
    check_on_window_created_routing_matches_app_name_case_insensitively();
}

fn check_quit_command_requests_shutdown_and_exits_bar() {
    let mut sm = setup(1);
    let effects = command(&mut sm, Command::Quit, 1);
    assert!(sm.shutdown_requested());
    assert!(effects
        .iter()
        .any(|e| matches!(e, Effect::Reply(DaemonResponse::Ack))));
    assert!(
        effects
            .iter()
            .any(|e| matches!(e, Effect::SendBar(BarSignal::Exit))),
        "quitting should tell the bar to exit too"
    );
}

#[test]
fn mod_quit_command_requests_shutdown_and_exits_bar() {
    check_quit_command_requests_shutdown_and_exits_bar();
}

#[test]
fn state_quit_command_requests_shutdown_and_exits_bar() {
    check_quit_command_requests_shutdown_and_exits_bar();
}

#[test]
fn workspace_switch_hides_all_other_workspaces_on_monitor() {
    let mut sm = setup(1);
    let firefox = Some(String::from("org.mozilla.firefox"));
    sm.on_window_created(777, 77, &firefox, &None);
    let browsing_idx = sm
        .workspaces()
        .iter()
        .position(|ws| ws.name() == "Browsing")
        .unwrap();
    assert!(holds(&sm, browsing_idx, 777));

    command(&mut sm, Command::Workspace { id: 1 }, 1);
    let dev_idx = sm
        .workspaces()
        .iter()
        .position(|ws| ws.name() == "Development")
        .unwrap();
    assert_eq!(sm.displays().active().get(&1), Some(&dev_idx));
    assert!(!holds(&sm, dev_idx, 777));
    assert!(holds(&sm, browsing_idx, 777));
    assert_eq!(sm.workspaces()[dev_idx].window_count(), 0);
}

#[test]
fn workspace_switch_debounces_stale_focus() {
    let mut sm = setup(1);
    let firefox = Some(String::from("org.mozilla.firefox"));
    sm.on_window_created(777, 77, &firefox, &None);
    let browsing_idx = sm
        .workspaces()
        .iter()
        .position(|ws| ws.name() == "Browsing")
        .unwrap();
    let dev_idx = sm
        .workspaces()
        .iter()
        .position(|ws| ws.name() == "Development")
        .unwrap();
    command(&mut sm, Command::Workspace { id: 2 }, 1);
    assert_eq!(sm.displays().active().get(&1), Some(&browsing_idx));
    command(&mut sm, Command::Workspace { id: 1 }, 1);
    assert_eq!(sm.displays().active().get(&1), Some(&dev_idx));
    sm.on_window_focused(777, 0);
    assert_eq!(
        sm.displays().active().get(&1),
        Some(&dev_idx),
        "debounced focus should not drag active back to browsing"
    );
}

#[test]
fn startup_effects_watch_running_apps_then_publish() {
    let apps: Vec<(i32, Vec<WindowId>)> = vec![(42, vec![100, 200])];
    let (sm, effects) = StateManager::new(
        &displays(1),
        1,
        Settings::default(),
        Some(42),
        &apps,
        Some(7),
        vec![9],
        0,
    );
    assert!(matches!(effects[0], Effect::AttachObserver(42)));
    assert!(matches!(effects[1], Effect::QueueWindowCreated(100, 42)));
    assert!(matches!(effects[2], Effect::QueueWindowCreated(200, 42)));
    assert!(matches!(effects[effects.len() - 1], Effect::PublishBarState));
    assert!(sm.bar().is_spawned());
    let mut ignored = sm;
    assert!(ignored.on_window_created(500, 7, &None, &None).is_empty());
    assert!(ignored.on_window_created(501, 9, &None, &None).is_empty());
}

#[test]
fn no_display_falls_back_to_one_workspace() {
    let sm = setup(0);
    assert_eq!(sm.workspaces().len(), 1);
    assert_eq!(sm.workspaces()[0].name(), "ws-1");
    assert_eq!(sm.displays().active().get(&0), Some(&0));
}

#[test]
fn reload_config_clamps_gaps_and_capacity() {
    let mut sm = setup(1);
    let mut settings = Settings::default();
    settings.gap_outer = -3;
    settings.gap_inner = 7;
    settings.max_tiles = 0;
    let effects = sm.reload_config(settings, 1, &displays(1));
    assert_eq!(sm.gaps(), (0, 7));
    assert_eq!(sm.router().max_tiles(), 1);
    assert!(matches!(effects[1], Effect::SendBar(BarSignal::Reload)));
}

#[test]
fn monitor_added_gets_the_workspace_set() {
    let mut sm = setup(1);
    let effects = sm.on_monitor_added(2, 1, &displays(2));
    assert_eq!(sm.workspaces().len(), 10);
    assert_eq!(sm.displays().active().get(&2), Some(&5));
    assert!(matches!(effects[effects.len() - 1], Effect::PublishBarState));
    assert!(sm.on_monitor_added(3, 1, &displays(2)).is_empty());
}

#[test]
fn destroyed_window_leaves_its_app_list() {
    let mut sm = setup(1);
    sm.on_window_destroyed(100);
    assert_eq!(sm.pid_to_windows().get(&42), Some(&vec![200]));
    sm.on_window_destroyed(200);
    assert!(!sm.pid_to_windows().contains_key(&42));
}

#[test]
fn sanitized_workspace_keeps_metadata_only() {
    let mut ws = Workspace::new(String::from("Dev"), 1, (0, 0), (1920, 1080));
    ws.add_window(100, None);
    ws.add_window(200, None);
    ws.set_monocle(true);
    assert_eq!(ws.window_count(), 2);
    let clean = sanitize_workspace(&ws);
    assert_eq!(clean.window_count(), 0, "windows stripped");
    assert!(clean.monocle(), "monocle preserved");
    assert_eq!(clean.name(), "Dev");
    assert_eq!(clean.monitor_id(), 1);
}

#[test]
fn moving_focused_window_leaves_the_others_in_place() {
    let mut sm = setup(1);
    sm.add_window_at(0, 500);
    sm.add_window_at(0, 600);
    sm.add_window_at(1, 700);
    sm.set_app_windows(42, vec![600]);
    sm.on_window_focused(600, 0);
    sm.move_focused_to_workspace(1);
    assert!(holds(&sm, 0, 500));
    assert!(!holds(&sm, 0, 600));
    assert!(holds(&sm, 1, 700));
    assert!(holds(&sm, 1, 600));
}

#[test]
fn focus_display_right_reaches_the_empty_second_display() {
    for (direction, expected) in [(Direction::Right, 3), (Direction::Left, 2)] {
        let mut sm = setup(2);
        sm.add_window_at(0, 500);
        sm.set_app_windows(42, vec![500]);
        let effects = command(&mut sm, Command::FocusDisplay { direction }, 2);
        assert_eq!(effects.len(), expected);
        if expected == 3 {
            assert!(matches!(effects[0], Effect::PublishBarState));
        }
        assert!(matches!(effects[expected - 2], Effect::Reply(DaemonResponse::Ack)));
    }
}

#[test]
fn move_window_to_display_right_lands_on_the_shown_workspace() {
    let mut sm = setup(2);
    sm.add_window_at(0, 500);
    sm.add_window_at(0, 600);
    sm.set_app_windows(42, vec![600]);
    sm.on_window_focused(600, 0);
    assert_eq!(sm.workspaces()[0].window_count(), 2);
    command(
        &mut sm,
        Command::MoveWindowToDisplay {
            direction: Direction::Right,
        },
        2,
    );
    assert_eq!(sm.workspaces()[0].window_count(), 1);
    assert_eq!(sm.workspaces()[5].window_count(), 1);
    assert_eq!(sm.workspaces()[5].monitor_id(), 2);
    assert!(holds(&sm, 0, 500));
    assert!(holds(&sm, 5, 600));
}

#[test]
fn layout_and_switch_commands_lay_out_what_they_change() {
    let mut sm = setup(1);
    let effects = command(&mut sm, Command::ToggleLayout, 1);
    assert_eq!(effects.len(), 3);
    assert!(matches!(effects[0], Effect::ApplyLayout(0)));

    let mut sm = setup(1);
    sm.add_window_at(0, 500);
    let effects = command(&mut sm, Command::Workspace { id: 3 }, 1);
    // The other four workspaces are hidden, then workspace 3 is laid out.
    assert_eq!(effects.len(), 7);
    assert!(effects[..4].iter().all(|e| matches!(e, Effect::HideWindows(_))));
    assert!(matches!(effects[0], Effect::HideWindows(ref v) if v == &vec![500]));
    assert!(matches!(effects[4], Effect::ApplyLayout(2)));
    assert!(matches!(effects[5], Effect::Reply(DaemonResponse::Ack)));
}

#[test]
fn reconcile_hides_then_shows_again() {
    let mut sm = setup(1);
    sm.add_window_at(0, 100);
    sm.add_window_at(0, 200);
    let report = |window, hidden| WindowReport { window, hidden, bundle: None, app_name: None };
    let effects = sm.reconcile_hidden_windows(&vec![report(100, true), report(200, false)]);
    assert!(!holds(&sm, 0, 100));
    assert!(holds(&sm, 0, 200));
    assert!(sm.hidden().contains(100));
    assert!(matches!(effects.last(), Some(Effect::PublishBarState)));
    sm.reconcile_hidden_windows(&vec![report(100, false), report(200, false)]);
    assert!(holds(&sm, 0, 100));
    assert!(!sm.hidden().contains(100));
}

use pengwm::state::drag::{DragState, DragTickAction};
use pengwm::tree::SplitDirection;
use pengwm::workspace::Workspace;

fn two_window_workspaces() -> Vec<Workspace> {
    let mut ws = Workspace::new("ws".into(), 1, (0, 0), (1000, 800));
    ws.add_window(1, None);
    ws.add_window(2, None);
    vec![ws]
}

// The tiled rects of this fixture are 1 = (0,0,500,800) and
// 2 = (500,0,500,800); dragging window 1 to x = 400 puts its centre at
// 650, inside window 2, and x = 2000 puts it outside both. The hit test on
// those rects gives `Some(Some(2))` and `Some(None)`.

#[test]
fn on_moved_sets_overlap_when_center_hits_other_window() {
    let wss = two_window_workspaces();
    let mut d = DragState::new();
    let now: u64 = 10_000;
    d.on_moved(1, Some(Some(2)), &wss, now);
    assert_eq!(d.overlap_target(), Some(2));
    assert_eq!(d.drag_window(), Some(1));
}

#[test]
fn on_moved_clears_overlap_when_no_hit() {
    let wss = two_window_workspaces();
    let mut d = DragState::new();
    let t0: u64 = 10_000;
    d.on_moved(1, Some(Some(2)), &wss, t0);
    assert_eq!(d.overlap_target(), Some(2));
    d.on_moved(1, Some(None), &wss, t0 + 10);
    assert_eq!(d.overlap_target(), None);
}

#[test]
fn on_tick_swap_after_hold_duration() {
    let wss = two_window_workspaces();
    let mut d = DragState::new();
    let t0: u64 = 10_000;
    d.on_moved(1, Some(Some(2)), &wss, t0);
    // Before hold — no swap.
    assert_eq!(d.on_tick(t0 + 1000, &wss, 0), DragTickAction::Nothing);
    // After hold — swap.
    let action = d.on_tick(t0 + 3000, &wss, 0);
    assert_eq!(
        action,
        DragTickAction::Swap {
            workspace_idx: 0,
            drag: 1,
            target: 2
        }
    );
    assert!(d.is_idle(), "drag should be cleared after swap");
    assert_eq!(wss[0].window_count(), 2);
}

#[test]
fn on_tick_snap_back_after_idle_timeout_with_no_target() {
    let wss = two_window_workspaces();
    let mut d = DragState::new();
    let t0: u64 = 10_000;
    d.on_moved(1, Some(None), &wss, t0);
    assert_eq!(d.overlap_target(), None);
    assert_eq!(d.on_tick(t0 + 600, &wss, 0), DragTickAction::SnapBack { workspace_idx: 0 });
    assert!(d.is_idle());
}

#[test]
fn idle_timeout_does_not_fire_while_overlap_pending() {
    let wss = two_window_workspaces();
    let mut d = DragState::new();
    let t0: u64 = 10_000;
    d.on_moved(1, Some(Some(2)), &wss, t0);
    assert_eq!(d.overlap_target(), Some(2));
    assert_eq!(d.on_tick(t0 + 600, &wss, 0), DragTickAction::Nothing);
    assert!(!d.is_idle());
}

#[test]
fn clear_resets_all_fields() {
    let wss = two_window_workspaces();
    let mut d = DragState::new();
    d.on_moved(1, Some(Some(2)), &wss, 10_000);
    d.clear();
    assert!(d.is_idle());
    assert_eq!(d.overlap_target(), None);
}

#[test]
fn untiled_window_only_records_the_drag() {
    let wss = two_window_workspaces();
    let mut d = DragState::default();
    d.on_moved(77, Some(Some(2)), &wss, 5);
    assert_eq!(d.drag_window(), Some(77));
    assert_eq!(d.overlap_target(), None);
    // Without a rect the target is left as it was.
    d.on_moved(1, None, &wss, 6);
    assert_eq!(d.overlap_target(), None);
}

#[test]
fn same_target_keeps_hold_timer() {
    let wss = two_window_workspaces();
    let mut d = DragState::new();
    d.on_moved(1, Some(Some(2)), &wss, 1000);
    d.on_moved(1, Some(Some(2)), &wss, 2500);
    // Held since 1000: 3000 is 2000 later.
    assert_eq!(
        d.on_tick(3000, &wss, 0),
        DragTickAction::Swap { workspace_idx: 0, drag: 1, target: 2 }
    );
}

#[test]
fn swap_of_window_that_left_every_workspace_is_dropped() {
    let mut wss = two_window_workspaces();
    let mut d = DragState::new();
    d.on_moved(1, Some(Some(2)), &wss, 1000);
    wss[0].remove_window(1);
    assert_eq!(d.on_tick(5000, &wss, 0), DragTickAction::Nothing);
    assert!(d.is_idle());
    let _ = SplitDirection::Vertical;
}

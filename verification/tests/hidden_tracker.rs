use pengwm::state::hidden::HiddenTracker;
use pengwm::workspace::Workspace;

fn ws_with_windows(ids: &[u64]) -> Vec<Workspace> {
    let mut ws = Workspace::new("ws".into(), 1, (0, 0), (1920, 1080));
    for &id in ids {
        ws.add_window(id, None);
    }
    vec![ws]
}

#[test]
fn hide_window_removes_from_workspace_and_remembers_idx() {
    let mut workspaces = ws_with_windows(&[10, 20]);
    let mut t = HiddenTracker::new();
    let idx = t.hide_window(10, &mut workspaces).unwrap();
    assert_eq!(idx, 0);
    assert!(workspaces[0].find_window(10).is_none());
    assert_eq!(t.get(10), Some(0));
}

#[test]
fn hide_window_returns_none_when_not_tiled() {
    let mut workspaces = ws_with_windows(&[10]);
    let mut t = HiddenTracker::new();
    assert!(t.hide_window(99, &mut workspaces).is_none());
    assert!(t.is_empty());
}

#[test]
fn take_hidden_returns_remembered_and_clears() {
    let mut t = HiddenTracker::new();
    t.insert(10, 2);
    assert_eq!(t.take_hidden(10), Some(2));
    assert!(!t.contains(10));
}

#[test]
fn pending_to_hide_when_predicate_says_hidden_and_tiled() {
    let workspaces = ws_with_windows(&[1, 2]);
    let windows = vec![(1, true), (2, false)];
    let t = HiddenTracker::new();
    let (to_hide, to_show) = t.pending_for_reconcile(&windows, &workspaces);
    assert_eq!(to_hide, vec![1]);
    assert!(to_show.is_empty());
}

#[test]
fn pending_to_show_when_hidden_map_has_entry_but_predicate_says_visible() {
    let workspaces = ws_with_windows(&[2]);
    let mut t = HiddenTracker::new();
    // 1 is hidden-tracked but not tiled; reported visible -> should retile
    t.insert(1, 0);
    let windows = vec![(1, false), (2, false)];
    let (to_hide, to_show) = t.pending_for_reconcile(&windows, &workspaces);
    assert!(to_hide.is_empty());
    assert_eq!(to_show, vec![1]);
}

#[test]
fn pending_hides_all_windows_when_app_hidden() {
    let workspaces = ws_with_windows(&[10, 20]);
    let windows = vec![(10, true), (20, true)];
    let t = HiddenTracker::new();
    let (to_hide, _) = t.pending_for_reconcile(&windows, &workspaces);
    assert_eq!(to_hide.len(), 2);
}

#[test]
fn should_reconcile_debounces_by_interval() {
    let now: u64 = 1_000_000;
    let mut t = HiddenTracker::with_last_reconcile(now);
    assert!(!t.should_reconcile(now));
    assert!(t.should_reconcile(now + 2000));
    assert!(!t.should_reconcile(now + 2000 + 100));
}

#[test]
fn should_reconcile_exactly_at_interval_and_not_backwards() {
    let mut t = HiddenTracker::with_last_reconcile(5000);
    assert!(!t.should_reconcile(5999));
    assert!(!t.should_reconcile(10));
    assert!(t.should_reconcile(6000));
    t.set_last_reconcile(0);
    assert!(t.should_reconcile(1000));
}

#[test]
fn force_due_makes_next_check_due() {
    let mut t = HiddenTracker::new();
    t.force_due();
    let now = std::time::SystemTime::now()
        .duration_since(std::time::UNIX_EPOCH)
        .unwrap()
        .as_millis() as u64;
    assert!(t.should_reconcile(now));
}

#[test]
fn insert_remove_and_len() {
    let mut t = HiddenTracker::default();
    assert_eq!(t.insert(5, 1), None);
    assert_eq!(t.insert(5, 3), Some(1));
    assert_eq!(t.len(), 1);
    assert_eq!(t.remove(5), Some(3));
    assert_eq!(t.remove(5), None);
    assert!(t.is_empty());
}

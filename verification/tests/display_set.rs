use pengwm::adapter::DisplayInfo;
use pengwm::settings::WorkspaceEntry;
use pengwm::state::display::DisplaySet;
use pengwm::workspace::Workspace;

fn test_displays_one() -> Vec<DisplayInfo> {
    vec![DisplayInfo {
        id: 1,
        origin: (0, 0),
        size: (1920, 1080),
    }]
}

fn test_displays_two() -> Vec<DisplayInfo> {
    vec![
        DisplayInfo {
            id: 1,
            origin: (0, 0),
            size: (1920, 1080),
        },
        DisplayInfo {
            id: 2,
            origin: (1920, 0),
            size: (1920, 1080),
        },
    ]
}

fn entries_two() -> Vec<WorkspaceEntry> {
    vec![
        WorkspaceEntry {
            name: "a".into(),
            apps: vec![],
        },
        WorkspaceEntry {
            name: "b".into(),
            apps: vec![],
        },
    ]
}

#[test]
fn init_workspaces_creates_per_display_sets() {
    let mut ds = DisplaySet::new(entries_two());
    let mut wss = Vec::new();
    ds.init_workspaces(&mut wss, &test_displays_two());
    assert_eq!(wss.len(), 4);
    assert!(wss[..2].iter().all(|ws| ws.monitor_id() == 1));
    assert!(wss[2..].iter().all(|ws| ws.monitor_id() == 2));
    assert_eq!(ds.active().get(&1), Some(&0));
    assert_eq!(ds.active().get(&2), Some(&2));
}

#[test]
fn on_added_clones_entries_for_new_display() {
    let mut ds = DisplaySet::new(entries_two());
    let mut wss: Vec<Workspace> = Vec::new();
    ds.init_workspaces(&mut wss, &test_displays_one());
    assert_eq!(wss.len(), 2);

    let created = ds.on_added(2, &mut wss, &test_displays_two()).unwrap();
    assert_eq!(created, vec![2, 3]);
    assert_eq!(wss.len(), 4);
    assert_eq!(ds.active().get(&2), Some(&2));
}

#[test]
fn on_added_unknown_display_changes_nothing() {
    let mut ds = DisplaySet::new(entries_two());
    let mut wss: Vec<Workspace> = Vec::new();
    ds.init_workspaces(&mut wss, &test_displays_one());
    assert!(ds.on_added(9, &mut wss, &test_displays_two()).is_none());
    assert_eq!(wss.len(), 2);
    assert_eq!(ds.active().len(), 1);
}

#[test]
fn on_removed_reassigns_and_cleans() {
    let mut ds = DisplaySet::new(entries_two());
    let mut wss: Vec<Workspace> = Vec::new();
    ds.init_workspaces(&mut wss, &test_displays_two());
    // Display 2 removed — only display 1 remains. Orphaned workspaces are
    // reassigned to the primary, so all 4 are kept.
    ds.on_removed(2, &mut wss, 1, &test_displays_one());
    assert!(wss.iter().all(|ws| ws.monitor_id() == 1));
    assert_eq!(wss.len(), 4);
}

#[test]
fn on_removed_falls_back_to_single_workspace() {
    let mut ds = DisplaySet::new(entries_two());
    let mut wss: Vec<Workspace> = Vec::new();
    ds.init_workspaces(&mut wss, &test_displays_two());
    // No display is left at all.
    ds.on_removed(2, &mut wss, 5, &[]);
    assert_eq!(wss.len(), 1);
    assert_eq!(wss[0].name(), "ws-1");
    assert_eq!(wss[0].monitor_id(), 5);
    assert_eq!(wss[0].monitor_size(), (1920, 1080));
    // Display 1 still shows index 0, which exists; nothing else is shown.
    assert_eq!(ds.active().get(&1), Some(&0));
    assert_eq!(ds.active().get(&2), None);
    assert_eq!(ds.active().len(), 1);
}

#[test]
fn on_removed_shows_first_workspace_when_no_index_survives() {
    let mut ds = DisplaySet::new(entries_two());
    let mut wss: Vec<Workspace> = Vec::new();
    ds.init_workspaces(&mut wss, &test_displays_two());
    ds.active_mut().remove(&1);
    // Only display 2's entry (index 2) is left, and it is past the end.
    ds.on_removed(2, &mut wss, 5, &[]);
    assert_eq!(wss.len(), 1);
    assert_eq!(ds.active().get(&5), Some(&0));
    assert_eq!(ds.active().len(), 1);
}

#[test]
fn on_resized_updates_geometry_and_returns_affected() {
    let ds = {
        let mut ds = DisplaySet::new(entries_two());
        let mut wss: Vec<Workspace> = Vec::new();
        ds.init_workspaces(&mut wss, &test_displays_two());
        (ds, wss)
    };
    let (ds, mut wss) = ds;
    let displays = vec![
        DisplayInfo {
            id: 1,
            origin: (0, 0),
            size: (2560, 1440),
        },
        DisplayInfo {
            id: 2,
            origin: (2560, 0),
            size: (1920, 1080),
        },
    ];
    let affected = ds.on_resized(1, &mut wss, &displays);
    assert_eq!(affected, vec![0, 1]);
    assert_eq!(wss[0].monitor_size(), (2560, 1440));
    assert_eq!(wss[2].monitor_size(), (1920, 1080));
}

#[test]
fn entries_and_active_mut() {
    let mut ds = DisplaySet::new(entries_two());
    assert_eq!(ds.entries().len(), 2);
    ds.active_mut().insert(7, 3);
    assert_eq!(ds.active().get(&7), Some(&3));
    ds.set_entries(Vec::new());
    assert!(ds.entries().is_empty());
}

#[test]
fn init_and_removal_report_counts_and_relayout_indices() {
    let mut ds = DisplaySet::new(entries_two());
    let mut wss: Vec<Workspace> = Vec::new();
    assert_eq!(ds.init_workspaces(&mut wss, &test_displays_two()), 4);
    assert_eq!(ds.on_removed(2, &mut wss, 1, &test_displays_one()), vec![0, 1, 2, 3]);
    assert_eq!(ds.on_removed(1, &mut wss, 5, &[]), vec![0]);
}

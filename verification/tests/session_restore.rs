use std::collections::HashMap;

use pengwm::adapter::DisplayInfo;
use pengwm::state::session::{restore_session, sanitize_workspace};
use pengwm::workspace::Workspace;

fn display(id: u32, x: i32) -> DisplayInfo {
    DisplayInfo { id, origin: (x, 0), size: (2560, 1440) }
}

#[test]
fn restore_moves_orphans_to_primary_and_repairs_shown_map() {
    let saved = vec![
        sanitize_workspace(&Workspace::new("Dev".into(), 1, (0, 0), (1920, 1080))),
        sanitize_workspace(&Workspace::new("Browsing".into(), 2, (1920, 0), (1920, 1080))),
    ];
    let active = HashMap::from([(1u32, 0usize), (2u32, 1usize)]);
    let (ws, shown) = restore_session(saved, &active, 1, &[display(1, 0)]);
    assert_eq!(ws.len(), 2);
    assert_eq!(ws[0].monitor_size(), (2560, 1440));
    assert_eq!(ws[1].name(), "Browsing");
    assert_eq!(ws[1].monitor_id(), 1);
    assert_eq!(ws[1].monitor_origin(), (0, 0));
    assert_eq!(shown, HashMap::from([(1u32, 0usize)]));
}

#[test]
fn restore_gives_a_new_display_its_first_workspace_and_drops_stale_indices() {
    let saved = vec![
        Workspace::new("a".into(), 1, (0, 0), (1920, 1080)),
        Workspace::new("b".into(), 3, (100, 0), (1920, 1080)),
    ];
    let active = HashMap::from([(1u32, 7usize)]);
    let (ws, shown) = restore_session(saved, &active, 1, &[display(1, 0), display(3, 2560)]);
    assert_eq!(ws[1].monitor_origin(), (2560, 0));
    assert_eq!(shown.get(&1), Some(&0));
    assert_eq!(shown.get(&3), Some(&1));
}

use pengwm::command::Command;
use pengwm::keybinds::{key_name_to_keycode, parse_modifiers};
use pengwm::workspace::Workspace;

#[test]
fn added_window_is_found_at_its_leaf() {
    let mut ws = Workspace::new("w".into(), 1, (0, 0), (1920, 1080));
    ws.add_window(1, None);
    ws.add_window(2, None);
    let leaf = ws.add_window(3, None);
    assert_eq!(ws.find_window(3), Some(leaf));
}

#[test]
fn removed_window_is_gone() {
    let mut ws = Workspace::new("w".into(), 1, (0, 0), (1920, 1080));
    ws.add_window(1, None);
    ws.add_window(2, None);
    ws.remove_window(1);
    assert!(ws.find_window(1).is_none());
    assert!(ws.find_window(2).is_some());
}

#[test]
fn gap_actions_round_trip_and_workspace_zero_is_no_action() {
    assert_eq!(
        Command::parse_action("set-gap-outer--5"),
        Some(Command::SetGapOuter { pixels: -5 })
    );
    assert_eq!(
        Command::parse_action("set-gap-inner-12"),
        Some(Command::SetGapInner { pixels: 12 })
    );
    assert!(Command::parse_action("workspace-0").is_none());
    assert!(Command::parse_action("move-window-to-workspace-0").is_none());
}

#[test]
fn key_names_have_distinct_keycodes() {
    let names = ["h", "j", "k", "l", "left", "right", "space", "return", "1", "0"];
    for a in names {
        for b in names {
            if a != b {
                assert_ne!(key_name_to_keycode(a), key_name_to_keycode(b), "{a} vs {b}");
            }
        }
    }
}

#[test]
fn modifier_lists_combine_as_a_union() {
    assert_eq!(parse_modifiers("cmd-shift"), parse_modifiers("cmd") | parse_modifiers("shift"));
    assert_eq!(parse_modifiers("alt-ctrl"), parse_modifiers("ctrl-alt"));
    assert_eq!(parse_modifiers("Shift-bogus"), parse_modifiers("shift"));
}

#[test]
fn focus_exists_exactly_while_windows_remain() {
    let mut ws = Workspace::new("w".into(), 1, (0, 0), (1920, 1080));
    assert!(ws.focused_window_id().is_none());
    ws.add_window(1, None);
    ws.add_window(2, None);
    ws.remove_window(2);
    assert_eq!(ws.focused_window_id(), Some(1));
    ws.remove_window(1);
    assert!(ws.focused_window_id().is_none());
    assert_eq!(ws.window_count(), 0);
}

#[test]
fn four_default_insertions_chain() {
    let mut ws = Workspace::new("w".into(), 1, (0, 0), (1920, 1080));
    for w in [100, 200, 300, 400] {
        let leaf = ws.add_window(w, None);
        assert_eq!(ws.find_window(w), Some(leaf));
    }
    assert_eq!(ws.window_count(), 4);
    assert_eq!(ws.focused_window_id(), Some(400));
}

#[test]
fn modifier_lists_depend_only_on_their_normalised_words() {
    assert_eq!(parse_modifiers("shift-cmd-shift-nope"), parse_modifiers(" CMD -Shift"));
    assert_eq!(parse_modifiers("Option-control"), parse_modifiers("ctrl-alt"));
}

#[test]
fn formatted_numbers_read_back_as_actions() {
    for n in [1u32, 9, 10, 42, 4_294_967_295] {
        assert_eq!(
            Command::parse_action(&format!("workspace-{n}")),
            Some(Command::Workspace { id: n })
        );
    }
    for p in [i32::MIN, -1, 0, 7, i32::MAX] {
        assert_eq!(
            Command::parse_action(&format!("set-gap-outer-{p}")),
            Some(Command::SetGapOuter { pixels: p })
        );
    }
}

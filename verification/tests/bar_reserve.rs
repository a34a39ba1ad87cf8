use pengwm::adapter::DisplayInfo;
use pengwm::config::{BarConfig, BarPosition};
use pengwm::layout::Rect;
use pengwm::state::bar::{BarReserve, ReloadAction, ToggleAction};
use pengwm::workspace::Workspace;

fn test_displays() -> Vec<DisplayInfo> {
    vec![DisplayInfo {
        id: 1,
        origin: (0, 0),
        size: (1920, 1080),
    }]
}

fn bar_top(spawned: bool, visible: bool, thickness: i32) -> BarReserve {
    let mut config = BarConfig::default();
    config.position = BarPosition::Top;
    config.thickness = thickness;
    config.visible = visible;
    config.enabled = spawned;
    BarReserve::with_state(config, visible, spawned)
}

#[test]
fn reserved_rect_top_strip_on_primary_display() {
    let bar = bar_top(true, true, 24);
    let rect = bar.reserved_rect(1, &test_displays()).unwrap();
    assert_eq!((rect.x, rect.y, rect.width, rect.height), (0, 0, 1920, 24));
}

#[test]
fn reserved_rect_bottom_and_right() {
    let mut bar = bar_top(true, true, 30);
    bar.config_mut().position = BarPosition::Bottom;
    let rect = bar.reserved_rect(1, &test_displays()).unwrap();
    assert_eq!((rect.x, rect.y), (0, 1080 - 30));
    assert_eq!((rect.width, rect.height), (1920, 30));

    bar.config_mut().position = BarPosition::Right;
    bar.config_mut().thickness = 40;
    let rect = bar.reserved_rect(1, &test_displays()).unwrap();
    assert_eq!((rect.x, rect.y), (1920 - 40, 0));
    assert_eq!((rect.width, rect.height), (40, 1080));
}

#[test]
fn reserved_rect_none_when_hidden() {
    let bar = bar_top(true, false, 24);
    assert_eq!(bar.reserved_rect(1, &test_displays()), None);
}

#[test]
fn reserved_rect_none_when_not_spawned() {
    let bar = bar_top(false, true, 24);
    assert_eq!(bar.reserved_rect(1, &test_displays()), None);
}

#[test]
fn reserved_rect_none_without_primary_geometry() {
    let bar = bar_top(true, true, 24);
    assert_eq!(bar.reserved_rect(2, &test_displays()), None);
}

#[test]
fn toggle_flips_visibility_when_spawned() {
    let mut bar = bar_top(true, true, 24);
    assert_eq!(bar.toggle(), ToggleAction::Hide);
    assert!(!bar.is_visible());
    assert_eq!(bar.toggle(), ToggleAction::Show(None));
    assert!(bar.is_visible());

    let mut bar2 = bar_top(true, false, 24);
    assert_eq!(bar2.toggle(), ToggleAction::Show(None));
    assert!(bar2.is_visible());
    assert_eq!(bar2.toggle(), ToggleAction::Hide);
    assert!(!bar2.is_visible());
}

#[test]
fn toggle_is_noop_when_not_spawned() {
    let mut bar = bar_top(false, false, 24);
    assert_eq!(bar.toggle(), ToggleAction::Noop);
    assert!(!bar.is_visible());
}

#[test]
fn apply_reservation_reserves_primary_only() {
    let bar = bar_top(true, true, 20);
    let mut wss = vec![
        Workspace::new("a".into(), 1, (0, 0), (1920, 1080)),
        Workspace::new("b".into(), 2, (1920, 0), (1920, 1080)),
    ];
    let affected = bar.apply_reservation(&mut wss, 1, &test_displays());
    assert!(wss[0].reserved_rect().is_some());
    assert!(wss[1].reserved_rect().is_none());
    assert_eq!(affected.len(), 2);
}

#[test]
fn apply_reservation_clears_when_hidden() {
    let bar_hidden = bar_top(true, false, 20);
    let mut wss = vec![Workspace::new("a".into(), 1, (0, 0), (1920, 1080))];
    wss[0].set_reserved_rect(Some(Rect::new(0, 0, 1920, 20)));
    bar_hidden.apply_reservation(&mut wss, 1, &test_displays());
    assert!(wss[0].reserved_rect().is_none());
}

#[test]
fn on_reload_needs_restart_when_enabled_flips_on() {
    let mut bar = bar_top(false, false, 24);
    let mut new = BarConfig::default();
    new.enabled = true;
    new.visible = true;
    new.thickness = 24;
    new.position = BarPosition::Top;
    assert_eq!(bar.on_reload(new), ReloadAction::NeedsRestart);
    assert!(!bar.is_spawned());
}

#[test]
fn on_reload_should_exit_when_enabled_flips_off() {
    let mut bar = bar_top(true, true, 24);
    let mut new = BarConfig::default();
    new.enabled = false;
    new.visible = false;
    new.thickness = 24;
    new.position = BarPosition::Top;
    assert_eq!(bar.on_reload(new), ReloadAction::ShouldExit);
    assert!(!bar.is_spawned());
    assert!(!bar.is_visible());
}

#[test]
fn on_reload_reapplies_and_follows_visibility() {
    let mut bar = bar_top(true, true, 24);
    let mut new = BarConfig::default();
    new.enabled = true;
    new.visible = false;
    assert_eq!(bar.on_reload(new), ReloadAction::Reapply);
    assert!(bar.is_spawned());
    assert!(!bar.is_visible());
}

#[test]
fn new_and_spawn_gate() {
    let mut bar = BarReserve::new(BarConfig::default(), true);
    assert!(bar.is_visible());
    bar.set_spawned(false);
    assert!(!bar.is_visible());
    bar.update_config(BarConfig::default());
    assert!(!bar.is_visible());
    assert_eq!(bar.config().thickness, 32);
}

#[test]
fn defaults_are_top_32() {
    let cfg = BarConfig::default();
    assert_eq!(cfg.position, BarPosition::Top);
    assert_eq!(cfg.thickness, 32);
    assert!(cfg.visible);
    assert!(!cfg.enabled);
    assert_eq!(cfg.theme, "tokyo-night");
}

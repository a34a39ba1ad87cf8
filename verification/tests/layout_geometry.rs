use pengwm::config::BarPosition;
use pengwm::layout::{
    bar_strip_rect, far_offscreen_rect, hidden_rect, screen_local_to_global, subtract_strip, Rect,
};

#[test]
fn screen_local_to_global_offsets() {
    let local = Rect::new(10, 20, 100, 50);
    let global = screen_local_to_global(local, (1440, 0));
    assert_eq!(global, Rect::new(1450, 20, 100, 50));
}

#[test]
fn bar_strip_rect_on_every_edge() {
    let (origin, size) = ((1440, 0), (1920u32, 1080u32));
    assert_eq!(
        bar_strip_rect(origin, size, BarPosition::Top, 32),
        Rect::new(1440, 0, 1920, 32)
    );
    assert_eq!(
        bar_strip_rect(origin, size, BarPosition::Bottom, 32),
        Rect::new(1440, 1080 - 32, 1920, 32)
    );
    assert_eq!(
        bar_strip_rect(origin, size, BarPosition::Left, 24),
        Rect::new(1440, 0, 24, 1080)
    );
    assert_eq!(
        bar_strip_rect(origin, size, BarPosition::Right, 24),
        Rect::new(1440 + 1920 - 24, 0, 24, 1080)
    );
}

#[test]
fn bar_strip_rect_clamps_thickness_to_one() {
    assert_eq!(
        bar_strip_rect((0, 0), (100, 100), BarPosition::Top, 0),
        Rect::new(0, 0, 100, 1)
    );
    assert_eq!(
        bar_strip_rect((0, 0), (100, 100), BarPosition::Left, -5),
        Rect::new(0, 0, 1, 100)
    );
}

#[test]
fn subtract_strip_top_cuts_correctly() {
    let monitor = Rect::new(0, 0, 1920, 1080);
    let strip = Rect::new(0, 0, 1920, 32);
    assert_eq!(
        subtract_strip(monitor, strip),
        Rect::new(0, 32, 1920, 1048)
    );
}

#[test]
fn subtract_strip_bottom_and_side() {
    let monitor = Rect::new(0, 0, 100, 100);
    assert_eq!(
        subtract_strip(monitor, Rect::new(0, 90, 100, 10)),
        Rect::new(0, 0, 100, 90)
    );
    assert_eq!(
        subtract_strip(monitor, Rect::new(0, 0, 10, 100)),
        Rect::new(10, 0, 90, 100)
    );
    assert_eq!(
        subtract_strip(monitor, Rect::new(90, 0, 10, 100)),
        Rect::new(0, 0, 90, 100)
    );
}

#[test]
fn subtract_strip_ignores_non_edge() {
    let monitor = Rect::new(0, 0, 100, 100);
    let mid = Rect::new(10, 10, 10, 10);
    assert_eq!(subtract_strip(monitor, mid), monitor);
}

#[test]
fn subtract_strip_ignores_disjoint_and_full_cover() {
    let monitor = Rect::new(0, 0, 100, 100);
    assert_eq!(subtract_strip(monitor, Rect::new(200, 0, 100, 10)), monitor);
    assert_eq!(subtract_strip(monitor, Rect::new(0, 0, 100, 100)), monitor);
}

#[test]
fn hidden_rect_bottom_right_single_display() {
    assert_eq!(
        hidden_rect((0, 0), (1920, 1080)),
        Rect::new(1919, 1079, 1, 1)
    );
}

#[test]
fn hidden_rect_per_monitor_second_display() {
    assert_eq!(
        hidden_rect((1920, 0), (1920, 1080)),
        Rect::new(3839, 1079, 1, 1)
    );
}

#[test]
fn hidden_rect_negative_origin() {
    assert_eq!(
        hidden_rect((-1920, 0), (1920, 1080)),
        Rect::new(-1, 1079, 1, 1)
    );
}

#[test]
fn far_offscreen_is_negative_100k() {
    assert_eq!(
        far_offscreen_rect(),
        Rect::new(-100_000, -100_000, 0, 0)
    );
}

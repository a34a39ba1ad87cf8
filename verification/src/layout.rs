//! Integer screen geometry: bar strips, hidden-window rects and the
//! subtraction of a reserved edge strip from a monitor.
//!
//! Every rect computed here is derived from integer monitor geometry, so
//! coordinates are whole points.
use vstd::prelude::*;

use crate::config::BarPosition;

verus! {

/// A rectangle in points: top-left corner and size.
#[derive(Debug, Clone, Copy, PartialEq, Eq, Structural)]
pub struct Rect {
    pub x: i64,
    pub y: i64,
    pub width: i64,
    pub height: i64,
}

impl Rect {
    pub fn new(x: i64, y: i64, width: i64, height: i64) -> (r: Rect)
        ensures
            r == (Rect { x, y, width, height }),
    {
        Rect { x, y, width, height }
    }
}

/// The strip of a display that a bar at `position` with thickness `t`
/// (already at least one point) covers.
pub open spec fn strip_spec(origin: (i32, i32), size: (u32, u32), position: BarPosition, t: int) -> Rect {
    let (ox, oy) = (origin.0 as int, origin.1 as int);
    let (w, h) = (size.0 as int, size.1 as int);
    match position {
        BarPosition::Top => Rect { x: ox as i64, y: oy as i64, width: w as i64, height: t as i64 },
        BarPosition::Bottom => Rect {
            x: ox as i64,
            y: (oy + h - t) as i64,
            width: w as i64,
            height: t as i64,
        },
        BarPosition::Left => Rect { x: ox as i64, y: oy as i64, width: t as i64, height: h as i64 },
        BarPosition::Right => Rect {
            x: (ox + w - t) as i64,
            y: oy as i64,
            width: t as i64,
            height: h as i64,
        },
    }
}

/// The global-coordinate rect of a bar strip spanning one edge of a display.
/// `position` picks the edge; `thickness` (at least one point) is the strip's
/// width (left/right) or height (top/bottom).
pub fn bar_strip_rect(origin: (i32, i32), size: (u32, u32), position: BarPosition, thickness: i32) -> (r: Rect)
    ensures
        r == strip_spec(origin, size, position, if thickness < 1 { 1 } else { thickness as int }),
{
    let t: i64 = if thickness < 1 { 1 } else { thickness as i64 };
    let ox = origin.0 as i64;
    let oy = origin.1 as i64;
    let w = size.0 as i64;
    let h = size.1 as i64;
    match position {
        BarPosition::Top => Rect::new(ox, oy, w, t),
        BarPosition::Bottom => Rect::new(ox, oy + h - t, w, t),
        BarPosition::Left => Rect::new(ox, oy, t, h),
        BarPosition::Right => Rect::new(ox + w - t, oy, t, h),
    }
}

/// A 1x1 rect at the bottom-right corner of a display, where hidden windows
/// are parked.
pub fn hidden_rect(origin: (i32, i32), size: (u32, u32)) -> (r: Rect)
    ensures
        r == (Rect {
            x: (origin.0 + size.0 - 1) as i64,
            y: (origin.1 + size.1 - 1) as i64,
            width: 1,
            height: 1,
        }),
{
    Rect::new(origin.0 as i64 + size.0 as i64 - 1, origin.1 as i64 + size.1 as i64 - 1, 1, 1)
}

/// A zero-size rect far off-screen for windows that must be fully invisible.
pub fn far_offscreen_rect() -> (r: Rect)
    ensures
        r == (Rect { x: -100_000i64, y: -100_000i64, width: 0, height: 0 }),
{
    Rect { x: -100_000, y: -100_000, width: 0, height: 0 }
}

/// A rect moved from monitor-local to global coordinates.
pub fn screen_local_to_global(local: Rect, monitor_origin: (i32, i32)) -> (r: Rect)
    requires
        i64::MIN <= local.x + monitor_origin.0 <= i64::MAX,
        i64::MIN <= local.y + monitor_origin.1 <= i64::MAX,
    ensures
        r == (Rect {
            x: (local.x + monitor_origin.0) as i64,
            y: (local.y + monitor_origin.1) as i64,
            width: local.width,
            height: local.height,
        }),
{
    Rect {
        x: local.x + monitor_origin.0 as i64,
        y: local.y + monitor_origin.1 as i64,
        width: local.width,
        height: local.height,
    }
}

/// The larger of `v` and zero.
pub open spec fn nonneg(v: int) -> int {
    if v < 0 { 0 } else { v }
}

/// What is left of `monitor` when the edge strip `strip` is cut away.
/// A strip that does not overlap the monitor, or that does not span a full
/// edge, leaves the monitor unchanged.
pub open spec fn subtract_strip_spec(monitor: Rect, strip: Rect) -> Rect {
    let (mx, my, mw, mh) = (monitor.x as int, monitor.y as int, monitor.width as int, monitor.height as int);
    let (sx, sy, sw, sh) = (strip.x as int, strip.y as int, strip.width as int, strip.height as int);
    let overlaps_x = sx < mx + mw && sx + sw > mx;
    let overlaps_y = sy < my + mh && sy + sh > my;
    let spans_width = sx == mx && sx + sw == mx + mw;
    let spans_height = sy == my && sy + sh == my + mh;
    if !overlaps_x || !overlaps_y {
        monitor
    } else if spans_width {
        if sy == my && sy + sh < my + mh {
            Rect { x: monitor.x, y: (sy + sh) as i64, width: monitor.width, height: nonneg(my + mh - (sy + sh)) as i64 }
        } else if sy + sh == my + mh && sy > my {
            Rect { x: monitor.x, y: monitor.y, width: monitor.width, height: nonneg(sy - my) as i64 }
        } else {
            monitor
        }
    } else if spans_height {
        if sx == mx && sx + sw < mx + mw {
            Rect { x: (sx + sw) as i64, y: monitor.y, width: nonneg(mx + mw - (sx + sw)) as i64, height: monitor.height }
        } else if sx + sw == mx + mw && sx > mx {
            Rect { x: monitor.x, y: monitor.y, width: nonneg(sx - mx) as i64, height: monitor.height }
        } else {
            monitor
        }
    } else {
        monitor
    }
}

/// Whether every coordinate of `r` is at most `b` in magnitude.
pub open spec fn rect_within(r: Rect, b: int) -> bool {
    &&& -b <= r.x <= b
    &&& -b <= r.y <= b
    &&& -b <= r.width <= b
    &&& -b <= r.height <= b
}

/// Coordinates far beyond any screen, yet small enough that adding or
/// subtracting a few of them cannot overflow.
pub open spec fn rect_small(r: Rect) -> bool {
    rect_within(r, 0x100_0000_0000)
}

/// Subtract a reserved edge strip (in monitor-local coordinates) from the
/// monitor rect. `strip` is expected to span the full width (top/bottom) or
/// full height (left/right) and sit flush against one edge; anything else is
/// ignored.
pub fn subtract_strip(monitor: Rect, strip: Rect) -> (r: Rect)
    requires
        rect_within(monitor, 0x1000_0000_0000_0000),
        rect_within(strip, 0x1000_0000_0000_0000),
    ensures
        r == subtract_strip_spec(monitor, strip),
{
    let overlaps_x = strip.x < monitor.x + monitor.width && strip.x + strip.width > monitor.x;
    let overlaps_y = strip.y < monitor.y + monitor.height && strip.y + strip.height > monitor.y;
    if !overlaps_x || !overlaps_y {
        return monitor;
    }
    let spans_width = strip.x == monitor.x && strip.x + strip.width == monitor.x + monitor.width;
    let spans_height = strip.y == monitor.y && strip.y + strip.height == monitor.y + monitor.height;
    if spans_width {
        if strip.y == monitor.y && strip.y + strip.height < monitor.y + monitor.height {
            let cut = strip.y + strip.height;
            let remaining = monitor.y + monitor.height - cut;
            return Rect::new(monitor.x, cut, monitor.width, if remaining < 0 { 0 } else { remaining });
        }
        if strip.y + strip.height == monitor.y + monitor.height && strip.y > monitor.y {
            let remaining = strip.y - monitor.y;
            return Rect::new(monitor.x, monitor.y, monitor.width, if remaining < 0 { 0 } else { remaining });
        }
        return monitor;
    }
    if spans_height {
        if strip.x == monitor.x && strip.x + strip.width < monitor.x + monitor.width {
            let cut = strip.x + strip.width;
            let remaining = monitor.x + monitor.width - cut;
            return Rect::new(cut, monitor.y, if remaining < 0 { 0 } else { remaining }, monitor.height);
        }
        if strip.x + strip.width == monitor.x + monitor.width && strip.x > monitor.x {
            let remaining = strip.x - monitor.x;
            return Rect::new(monitor.x, monitor.y, if remaining < 0 { 0 } else { remaining }, monitor.height);
        }
    }
    monitor
}

} // verus!

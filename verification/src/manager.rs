//! The daemon's state machine: workspaces, displays, window tracking and the
//! trackers, driven by system events and commands. Each handler updates the
//! state and returns the effects the caller performs on the system (laying
//! out a workspace, hiding or focusing windows, talking to the bar,
//! replying to a client); what the system reports comes in as arguments.
use std::collections::HashMap;
use vstd::prelude::*;

use crate::adapter::{display_with_id, find_display, DisplayInfo};
use crate::command::{BarState, BarWorkspace, Command, DaemonResponse, LayoutMode, WorkspaceInfo};
use crate::settings::{entries_view, Settings, WorkspaceEntry};
use crate::layout::Rect;
use crate::state::bar::{reserved_as, strip_on, BarReserve, ReloadAction, ToggleAction};
use crate::state::display::{
    below, first_indices, fresh_for, indices_on, is_fresh, kept_count, laid_out, primary_origin, resized, survivors, DisplaySet,
};
use crate::state::drag::{moved_spec, tick_spec, DragState, DragTickAction, DragView};
use crate::state::hidden::{to_hide_spec, to_show_spec, HiddenTracker};
use crate::state::router::{capacity_search, entry_for, first_named, opt_view, windows_hit, Router};
use crate::state::{all_wf, find_workspace_for_window, has_window, remove_window_at, removed_at, workspace_of};
use crate::tree::{Direction, WindowId};
use crate::workspace::{focused_along, pair_found, swapped_along, swapped_by_id, Workspace};
use vstd::std_specs::iter::IteratorSpec;

verus! {

broadcast use vstd::std_specs::hash::group_hash_axioms;

/// A message for the status bar.
#[derive(Debug, Clone, Copy, PartialEq, Eq, Structural)]
pub enum BarSignal {
    Show,
    Hide,
    Exit,
    Reload,
}

/// Something the caller does on the system after a handler ran.
#[derive(Debug)]
pub enum Effect {
    /// Lay out workspace `idx` and move its windows.
    ApplyLayout(usize),
    /// Move these windows out of sight.
    HideWindows(Vec<WindowId>),
    FocusWindow(WindowId),
    CloseWindow(WindowId),
    SendBar(BarSignal),
    /// Send the bar a fresh snapshot of the workspaces.
    PublishBarState,
    /// Answer the client that sent the command, if one waits.
    Reply(DaemonResponse),
    /// Load the configuration file and hand it to `reload_config`.
    LoadConfig,
    /// Stop the event loop.
    Shutdown,
    /// Start watching the app's windows.
    AttachObserver(i32),
    /// Stop watching the app's windows.
    DetachObserver(i32),
    /// Feed a window-created event for this window of this app back in.
    QueueWindowCreated(WindowId, i32),
    /// Feed a window-destroyed event for this window back in.
    QueueWindowDestroyed(WindowId),
    /// Ask the system whether each tracked window is hidden and hand the
    /// answers to `reconcile_hidden_windows`.
    CheckHidden,
}

/// Whether `r` may be taken as the active workspace: the workspace shown
/// on the display of the first workspace holding a window of the frontmost
/// app (its windows taken in order), else one that a display shows, else
/// the first.
pub open spec fn choice_ok(
    ws: Seq<Workspace>,
    lists: Map<i32, Seq<WindowId>>,
    frontmost: Option<i32>,
    active: Map<u32, usize>,
    r: int,
) -> bool {
    let hit = match frontmost {
        Some(pid) => if lists.contains_key(pid) {
            windows_hit(ws, lists[pid], active)
        } else {
            None
        },
        None => None,
    };
    &&& 0 <= r < ws.len()
    &&& match hit {
        Some(x) => r == x,
        None => if active.is_empty() {
            r == 0
        } else {
            active.contains_value(r as usize)
        },
    }
}

/// `e` hides every window of `ws`.
pub open spec fn hides(e: Effect, ws: Workspace) -> bool {
    e matches Effect::HideWindows(v) && v@ == ws.window_seq()
}

/// How long (milliseconds) after an explicit workspace switch focus
/// notifications leave the shown workspaces alone.
pub const SWITCH_DEBOUNCE_MS: u64 = 150;

/// Until when focus is held after a switch at `now` (saturating).
pub open spec fn debounce_until(now: u64) -> u64 {
    if now + SWITCH_DEBOUNCE_MS > u64::MAX {
        u64::MAX
    } else {
        (now + SWITCH_DEBOUNCE_MS) as u64
    }
}

/// Whether a focus notification at `now` is held by the debounce.
pub open spec fn focus_held(debounce: Option<u64>, now: u64) -> bool {
    match debounce {
        Some(until) => now < until,
        None => false,
    }
}

/// Every shown index is a valid workspace index.
pub open spec fn active_in_range(active: Map<u32, usize>, n: nat) -> bool {
    forall|d: u32| active.contains_key(d) ==> #[trigger] active[d] < n
}

/// The daemon's state.
pub struct StateManager {
    workspaces: Vec<Workspace>,
    displays: DisplaySet,
    frontmost_pid: Option<i32>,
    pid_to_windows: HashMap<i32, Vec<WindowId>>,
    window_pids: HashMap<WindowId, i32>,
    hidden: HiddenTracker,
    gap_outer: i32,
    gap_inner: i32,
    router: Router,
    restricted_apps: Vec<String>,
    bar: BarReserve,
    excluded_pids: Vec<i32>,
    drag: DragState,
    shutdown_requested: bool,
    /// Until when (milliseconds) focus notifications do not change which
    /// workspace a display shows, after an explicit switch.
    switch_debounce_until: Option<u64>,
}

impl StateManager {
    pub closed spec fn spec_workspaces(&self) -> Seq<Workspace> {
        self.workspaces@
    }

    pub closed spec fn spec_active(&self) -> Map<u32, usize> {
        self.displays.spec_active()
    }

    pub closed spec fn spec_gaps(&self) -> (i32, i32) {
        (self.gap_outer, self.gap_inner)
    }

    pub closed spec fn spec_shutdown(&self) -> bool {
        self.shutdown_requested
    }

    pub closed spec fn spec_frontmost(&self) -> Option<i32> {
        self.frontmost_pid
    }

    pub closed spec fn spec_window_pids(&self) -> Map<WindowId, i32> {
        self.window_pids@
    }

    pub closed spec fn spec_hidden(&self) -> Map<WindowId, usize> {
        self.hidden.spec_hidden()
    }

    pub closed spec fn spec_max_tiles(&self) -> usize {
        self.router.spec_max_tiles()
    }

    pub closed spec fn spec_bar_visible(&self) -> bool {
        self.bar.spec_visible()
    }

    /// The windows tracked for each app, in the order they were seen.
    pub closed spec fn spec_pid_windows(&self) -> Map<i32, Seq<WindowId>> {
        lists_view(self.pid_to_windows@)
    }

    pub closed spec fn spec_excluded(&self) -> Seq<i32> {
        self.excluded_pids@
    }

    pub closed spec fn spec_bar(&self) -> BarReserve {
        self.bar
    }

    /// Whether `r` may be taken as the active workspace (see `choice_ok`).
    pub open spec fn active_choice(&self, r: int) -> bool {
        choice_ok(self.spec_workspaces(), self.spec_pid_windows(), self.spec_frontmost(), self.spec_active(), r)
    }

    /// Until when (milliseconds) focus notifications leave the shown
    /// workspaces alone.
    pub closed spec fn spec_debounce(&self) -> Option<u64> {
        self.switch_debounce_until
    }

    /// At least one workspace, all well formed, and every shown index valid.
    pub closed spec fn wf(&self) -> bool {
        &&& all_wf(self.workspaces@)
        &&& self.workspaces@.len() >= 1
        &&& active_in_range(self.displays.spec_active(), self.workspaces@.len())
        &&& self.displays.spec_entries().len() > 0
    }

    /// The workspaces.
    pub fn workspaces(&self) -> (r: &Vec<Workspace>)
        ensures
            r@ == self.spec_workspaces(),
    {
        &self.workspaces
    }

    pub fn displays(&self) -> (r: &DisplaySet)
        ensures
            r.spec_active() == self.spec_active(),
    {
        &self.displays
    }

    /// The outer and inner gaps, in points.
    pub fn gaps(&self) -> (r: (i32, i32))
        ensures
            r == self.spec_gaps(),
    {
        (self.gap_outer, self.gap_inner)
    }

    /// True once `Quit` has been handled.
    pub fn shutdown_requested(&self) -> (r: bool)
        ensures
            r == self.spec_shutdown(),
    {
        self.shutdown_requested
    }

    pub fn frontmost_pid(&self) -> (r: Option<i32>)
        ensures
            r == self.spec_frontmost(),
    {
        self.frontmost_pid
    }

    pub fn window_pids(&self) -> (r: &HashMap<WindowId, i32>)
        ensures
            r@ == self.spec_window_pids(),
    {
        &self.window_pids
    }

    pub fn pid_to_windows(&self) -> (r: &HashMap<i32, Vec<WindowId>>)
        ensures
            lists_view(r@) == self.spec_pid_windows(),
    {
        &self.pid_to_windows
    }

    pub fn hidden(&self) -> (r: &HiddenTracker)
        ensures
            r.spec_hidden() == self.spec_hidden(),
    {
        &self.hidden
    }

    pub fn router(&self) -> (r: &Router)
        ensures
            r.spec_max_tiles() == self.spec_max_tiles(),
    {
        &self.router
    }

    pub fn bar(&self) -> (r: &BarReserve)
        ensures
            r.spec_visible() == self.spec_bar_visible(),
    {
        &self.bar
    }

    pub fn drag(&self) -> (r: &DragState)
        ensures
            r@ == self.spec_drag(),
    {
        &self.drag
    }

    /// Let `n` windows share a workspace (at least one).
    pub fn set_max_tiles(&mut self, n: usize)
        requires
            old(self).wf(),
        ensures
            final(self).wf(),
            final(self).spec_max_tiles() == if n < 1 {
                1
            } else {
                n
            },
            final(self).spec_workspaces() == old(self).spec_workspaces(),
    {
        self.router.set_max_tiles(n);
    }
}

/// The workspace information `QueryState` reports for `ws`.
pub open spec fn info_matches(info: WorkspaceInfo, ws: Workspace) -> bool {
    &&& info.name@ == ws.spec_name()
    &&& info.monitor_id == ws.spec_monitor_id()
    &&& info.window_count == ws.window_seq().len()
    &&& info.focused_window == match ws.spec_focused() {
        Some(f) => Some(crate::shape::window_of(ws.nodes(), f)),
        None => None,
    }
}

/// `d` is a display with id `id`'s doubled centre coordinates.
pub open spec fn doubled_center(d: DisplayInfo) -> (int, int) {
    (2 * d.origin.0 + d.size.0, 2 * d.origin.1 + d.size.1)
}

/// Whether the vector (`dx`, `dy`) points in `direction`: mostly sideways
/// for left and right (ties go sideways), mostly vertically for up and
/// down.
pub open spec fn points_towards(dx: int, dy: int, direction: Direction) -> bool {
    let ax = if dx < 0 {
        -dx
    } else {
        dx
    };
    let ay = if dy < 0 {
        -dy
    } else {
        dy
    };
    match direction {
        Direction::Left => dx < 0 && ax >= ay,
        Direction::Right => dx > 0 && ax >= ay,
        Direction::Up => dy < 0 && ay > ax,
        Direction::Down => dy > 0 && ay > ax,
    }
}

impl StateManager {
    /// The workspace taken as active: the shown workspace of the display
    /// holding the frontmost app's first tiled window, else some shown
    /// workspace, else the first.
    pub fn active_workspace_idx(&self) -> (r: usize)
        requires
            self.wf(),
        ensures
            r < self.spec_workspaces().len(),
            self.active_choice(r as int),
    {
        let r = self.router.active_workspace_idx(&self.workspaces, &self.pid_to_windows, self.frontmost_pid, &self.displays);
        proof {
            match self.frontmost_pid {
                Some(pid) => if self.pid_to_windows@.contains_key(pid) {
                    crate::state::router::lemma_windows_hit_in_range(
                        self.workspaces@,
                        self.pid_to_windows@[pid]@,
                        self.displays.spec_active(),
                    );
                },
                None => {},
            }
        }
        r
    }

    /// Whether workspace `idx` is the one its display shows.
    pub fn is_workspace_visible(&self, idx: usize) -> (r: bool)
        requires
            self.wf(),
        ensures
            r == (idx < self.spec_workspaces().len() && self.spec_active().contains_key(
                self.spec_workspaces()[idx as int].spec_monitor_id(),
            ) && self.spec_active()[self.spec_workspaces()[idx as int].spec_monitor_id()] == idx),
    {
        if idx >= self.workspaces.len() {
            return false;
        }
        let mon = self.workspaces[idx].monitor_id();
        match self.displays.active().get(&mon) {
            Some(i) => *i == idx,
            None => false,
        }
    }

    /// The effect that hides every window of workspace `idx`.
    fn hide_workspace(&self, idx: usize) -> (r: Effect)
        requires
            self.wf(),
            idx < self.spec_workspaces().len(),
        ensures
            r matches Effect::HideWindows(v) && v@ == self.spec_workspaces()[idx as int].window_seq(),
            hides(r, self.spec_workspaces()[idx as int]),
    {
        assert(self.workspaces@[idx as int].wf());
        Effect::HideWindows(self.workspaces[idx].all_windows())
    }

    /// The indices of the workspaces on display `mon`, in order.
    fn workspaces_on(&self, mon: u32) -> (r: Vec<usize>)
        ensures
            r@ == indices_on(self.workspaces@, mon),
    {
        let mut out: Vec<usize> = Vec::new();
        let mut i: usize = 0;
        assert(self.workspaces@.take(0) =~= Seq::<Workspace>::empty());
        while i < self.workspaces.len()
            invariant
                i <= self.workspaces@.len(),
                out@ == indices_on(self.workspaces@.take(i as int), mon),
            decreases self.workspaces@.len() - i,
        {
            assert(self.workspaces@.take(i + 1).drop_last() =~= self.workspaces@.take(i as int));
            if self.workspaces[i].monitor_id() == mon {
                out.push(i);
            }
            i = i + 1;
        }
        assert(self.workspaces@.take(i as int) =~= self.workspaces@);
        out
    }

    /// The workspace information of every workspace, in order.
    fn workspace_infos(&self) -> (r: Vec<WorkspaceInfo>)
        requires
            self.wf(),
        ensures
            r@.len() == self.spec_workspaces().len(),
            forall|i: int| 0 <= i < r@.len() ==> info_matches(#[trigger] r@[i], self.spec_workspaces()[i]),
    {
        let mut out: Vec<WorkspaceInfo> = Vec::new();
        let mut i: usize = 0;
        while i < self.workspaces.len()
            invariant
                self.wf(),
                i <= self.workspaces@.len(),
                out@.len() == i,
                forall|j: int| 0 <= j < i ==> info_matches(#[trigger] out@[j], self.workspaces@[j]),
            decreases self.workspaces@.len() - i,
        {
            assert(self.workspaces@[i as int].wf());
            let ws = &self.workspaces[i];
            let info = WorkspaceInfo {
                name: ws.name().clone(),
                monitor_id: ws.monitor_id(),
                window_count: ws.window_count(),
                focused_window: ws.focused_window_id(),
            };
            out.push(info);
            i = i + 1;
        }
        out
    }

    /// The nearest display whose centre lies in `direction` from display
    /// `from_id`'s centre, by squared distance; the first of equally near
    /// ones wins. `None` when `displays` lacks `from_id` or nothing lies
    /// that way.
    pub fn find_display_in_direction(from_id: u32, direction: Direction, displays: &[DisplayInfo]) -> (r: Option<u32>)
        ensures
            in_direction(displays@, from_id, direction, r),
    {
        let from = match find_display(displays, from_id) {
            Some(d) => d,
            None => return None,
        };
        let fx: i64 = 2 * (from.origin.0 as i64) + from.size.0 as i64;
        let fy: i64 = 2 * (from.origin.1 as i64) + from.size.1 as i64;
        let mut best: Option<(u32, i128)> = None;
        let ghost mut kb: int = 0;
        let mut i: usize = 0;
        while i < displays.len()
            invariant
                i <= displays@.len(),
                display_with_id_is_some(displays@, from_id),
                from == crate::adapter::display_with_id(displays@, from_id)->0,
                fx == 2 * from.origin.0 + from.size.0,
                fy == 2 * from.origin.1 + from.size.1,
                best is None ==> forall|j: int| 0 <= j < i ==> !candidate(#[trigger] displays@[j], from, from_id, direction),
                best matches Some(b) ==> {
                    &&& 0 <= kb < i
                    &&& b.0 == displays@[kb].id
                    &&& b.1 == dist2(displays@[kb], from)
                    &&& candidate(displays@[kb], from, from_id, direction)
                    &&& forall|j: int|
                        0 <= j < i && candidate(#[trigger] displays@[j], from, from_id, direction) ==> dist2(
                            displays@[kb],
                            from,
                        ) <= dist2(displays@[j], from)
                    &&& forall|j: int|
                        0 <= j < kb && candidate(#[trigger] displays@[j], from, from_id, direction) ==> dist2(
                            displays@[j],
                            from,
                        ) > dist2(displays@[kb], from)
                },
            decreases displays@.len() - i,
        {
            let d = displays[i];
            if d.id != from_id {
                let cx: i64 = 2 * (d.origin.0 as i64) + d.size.0 as i64;
                let cy: i64 = 2 * (d.origin.1 as i64) + d.size.1 as i64;
                let dx: i64 = cx - fx;
                let dy: i64 = cy - fy;
                let ax: i64 = if dx < 0 {
                    -dx
                } else {
                    dx
                };
                let ay: i64 = if dy < 0 {
                    -dy
                } else {
                    dy
                };
                let is_match = match direction {
                    Direction::Left => dx < 0 && ax >= ay,
                    Direction::Right => dx > 0 && ax >= ay,
                    Direction::Up => dy < 0 && ay > ax,
                    Direction::Down => dy > 0 && ay > ax,
                };
                assert(is_match == candidate(d, from, from_id, direction));
                if is_match {
                    let xx = dx as i128;
                    let yy = dy as i128;
                    assert(xx * xx <= 0x100_0000_0000_0000_0000) by (nonlinear_arith)
                        requires
                            -0x10_0000_0000 <= xx <= 0x10_0000_0000,
                    ;
                    assert(yy * yy <= 0x100_0000_0000_0000_0000) by (nonlinear_arith)
                        requires
                            -0x10_0000_0000 <= yy <= 0x10_0000_0000,
                    ;
                    assert(xx * xx >= 0 && yy * yy >= 0) by (nonlinear_arith);
                    let dist: i128 = xx * xx + yy * yy;
                    assert(dist == dist2(d, from));
                    let better = match best {
                        Some(b) => dist < b.1,
                        None => true,
                    };
                    if better {
                        best = Some((d.id, dist));
                        proof {
                            kb = i as int;
                        }
                    }
                }
            }
            i = i + 1;
        }
        match best {
            Some(b) => Some(b.0),
            None => None,
        }
    }
}

/// `r` is what looking from display `from_id` in `direction` over
/// `displays` finds: `None` when `from_id` is not among them or no other
/// display's centre lies that way, else the id of the first nearest such
/// display.
pub open spec fn in_direction(displays: Seq<DisplayInfo>, from_id: u32, direction: Direction, r: Option<u32>) -> bool {
    &&& display_with_id_is_none(displays, from_id) ==> r is None
    &&& display_with_id_is_some(displays, from_id) ==> {
        let from = crate::adapter::display_with_id(displays, from_id)->0;
        &&& r is None <==> forall|k: int|
            0 <= k < displays.len() ==> !candidate(#[trigger] displays[k], from, from_id, direction)
        &&& r matches Some(id) ==> exists|k: int|
            0 <= k < displays.len() && #[trigger] displays[k].id == id && nearest_at(
                displays,
                k,
                from,
                from_id,
                direction,
            )
    }
}

/// Display `d` lies in `direction` from display `from` (by their centres)
/// and is not display `from_id` itself.
pub open spec fn candidate(d: DisplayInfo, from: DisplayInfo, from_id: u32, direction: Direction) -> bool {
    d.id != from_id && points_towards(
        doubled_center(d).0 - doubled_center(from).0,
        doubled_center(d).1 - doubled_center(from).1,
        direction,
    )
}

/// The squared distance between the doubled centres of `d` and `from`.
pub open spec fn dist2(d: DisplayInfo, from: DisplayInfo) -> int {
    let dx = doubled_center(d).0 - doubled_center(from).0;
    let dy = doubled_center(d).1 - doubled_center(from).1;
    dx * dx + dy * dy
}

/// Display `k` is a candidate no candidate is nearer to, and the first of
/// the nearest.
pub open spec fn nearest_at(ds: Seq<DisplayInfo>, k: int, from: DisplayInfo, from_id: u32, direction: Direction) -> bool {
    &&& candidate(ds[k], from, from_id, direction)
    &&& forall|j: int|
        0 <= j < ds.len() && candidate(#[trigger] ds[j], from, from_id, direction) ==> dist2(ds[k], from) <= dist2(
            ds[j],
            from,
        )
    &&& forall|j: int|
        0 <= j < k && candidate(#[trigger] ds[j], from, from_id, direction) ==> dist2(ds[j], from) > dist2(ds[k], from)
}

pub open spec fn display_with_id_is_some(ds: Seq<DisplayInfo>, id: u32) -> bool {
    crate::adapter::display_with_id(ds, id) is Some
}

pub open spec fn display_with_id_is_none(ds: Seq<DisplayInfo>, id: u32) -> bool {
    crate::adapter::display_with_id(ds, id) is None
}

impl StateManager {
    /// Reserve the bar strip in the primary display's workspaces and lay
    /// every workspace out again.
    fn reserve_bar_strip(&mut self, primary: u32, displays: &[DisplayInfo], effects: &mut Vec<Effect>)
        requires
            old(self).wf(),
        ensures
            final(self).wf(),
            final(self).spec_workspaces().len() == old(self).spec_workspaces().len(),
            Self::same_tracking(*final(self), *old(self)),
            final(self).spec_bar() == old(self).spec_bar(),
            forall|i: int|
                0 <= i < old(self).spec_workspaces().len() ==> reserved_as(
                    #[trigger] old(self).spec_workspaces()[i],
                    final(self).spec_workspaces()[i],
                    reserve_for(old(self).spec_bar(), old(self).spec_workspaces()[i], primary, displays@),
                ),
            final(effects)@ == old(effects)@ + layout_all(old(self).spec_workspaces().len()),
    {
        let ghost e0 = effects@;
        let affected = self.bar.apply_reservation(&mut self.workspaces, primary, displays);
        let mut i: usize = 0;
        while i < affected.len()
            invariant
                i <= affected@.len(),
                affected@ == Seq::new(old(self).spec_workspaces().len(), |j: int| j as usize),
                effects@ == e0 + layout_all(i as nat),
            decreases affected@.len() - i,
        {
            effects.push(Effect::ApplyLayout(affected[i]));
            i = i + 1;
            assert(layout_all(i as nat) =~= layout_all((i - 1) as nat).push(Effect::ApplyLayout((i - 1) as usize)));
        }
    }

    /// Everything but the workspaces is unchanged.
    pub open spec fn same_tracking(a: StateManager, b: StateManager) -> bool {
        &&& a.spec_active() == b.spec_active()
        &&& a.spec_window_pids() == b.spec_window_pids()
        &&& a.spec_pid_windows() == b.spec_pid_windows()
        &&& a.spec_excluded() == b.spec_excluded()
        &&& a.spec_hidden() == b.spec_hidden()
        &&& a.spec_frontmost() == b.spec_frontmost()
        &&& a.spec_gaps() == b.spec_gaps()
        &&& a.spec_shutdown() == b.spec_shutdown()
        &&& a.spec_max_tiles() == b.spec_max_tiles()
        &&& a.spec_entries() == b.spec_entries()
        &&& a.spec_restricted() == b.spec_restricted()
        &&& a.spec_debounce() == b.spec_debounce()
        &&& a.spec_bar() == b.spec_bar()
        &&& a.spec_drag() == b.spec_drag()
    }

    /// Move the focused window of the active workspace to workspace
    /// `target`, or to the next one with room on `target`'s display when
    /// `target` is full; nothing moves when none has room.
    fn move_focused_into(&mut self, current: usize, target: usize, effects: &mut Vec<Effect>)
        requires
            old(self).wf(),
            current < old(self).spec_workspaces().len(),
            target < old(self).spec_workspaces().len(),
        ensures
            final(self).wf(),
            final(self).spec_workspaces().len() == old(self).spec_workspaces().len(),
            Self::same_tracking(*final(self), *old(self)),
            focused_moved(
                old(self).spec_workspaces(),
                final(self).spec_workspaces(),
                current as int,
                target as int,
                old(self).spec_max_tiles() as nat,
            ),
            final(effects)@ == old(effects)@ + moved_effects(
                old(self).spec_workspaces(),
                old(self).spec_active(),
                current as int,
                target as int,
                old(self).spec_max_tiles() as nat,
            ),
    {
        if target == current {
            return ;
        }
        assert(self.workspaces@[current as int].wf());
        assert(self.workspaces@[target as int].wf());
        let wid = match self.workspaces[current].focused_window_id() {
            Some(w) => w,
            None => {
                effects.push(Effect::PublishBarState);
                return ;
            },
        };
        let n = self.workspaces.len();
        let dest = if self.workspaces[target].window_count() >= self.router.max_tiles() {
            match self.router.find_next_with_capacity(&self.workspaces, target) {
                Some(idx) => {
                    proof {
                        assert(self.workspaces@.len() == n);
                        crate::state::router::law_capacity_pick_has_room(
                            self.workspaces@,
                            target as int,
                            self.router.spec_max_tiles() as nat,
                            1,
                        );
                    }
                    idx
                },
                None => {
                    effects.push(Effect::PublishBarState);
                    return ;
                },
            }
        } else {
            target
        };
        self.move_window_between(wid, current, dest, effects);
        effects.push(Effect::PublishBarState);
    }

    /// Move the focused window of the active workspace to workspace
    /// `target`, or to the next one with room on `target`'s display when
    /// `target` is full; nothing moves when none has room.
    pub fn move_focused_to_workspace(&mut self, target: usize) -> (r: Vec<Effect>)
        requires
            old(self).wf(),
            target < old(self).spec_workspaces().len(),
        ensures
            final(self).wf(),
            Self::same_tracking(*final(self), *old(self)),
            exists|a: int|
                #[trigger] old(self).active_choice(a) && focused_moved(
                    old(self).spec_workspaces(),
                    final(self).spec_workspaces(),
                    a,
                    target as int,
                    old(self).spec_max_tiles() as nat,
                ),
    {
        let mut effects: Vec<Effect> = Vec::new();
        let current = self.active_workspace_idx();
        self.move_focused_into(current, target, &mut effects);
        effects
    }

    /// Remove window `wid` from workspace `from` and add it to `dest`,
    /// laying out whichever of the two is shown. Nothing moves when `dest`
    /// cannot take another window.
    fn move_window_between(&mut self, wid: WindowId, from: usize, dest: usize, effects: &mut Vec<Effect>)
        requires
            old(self).wf(),
            from < old(self).spec_workspaces().len(),
            dest < old(self).spec_workspaces().len(),
        ensures
            final(self).wf(),
            final(self).spec_workspaces().len() == old(self).spec_workspaces().len(),
            Self::same_tracking(*final(self), *old(self)),
            !old(self).spec_workspaces()[dest as int].can_allocate() ==> final(self).spec_workspaces() == old(
                self,
            ).spec_workspaces(),
            old(self).spec_workspaces()[dest as int].can_allocate() && from != dest ==> moved_between(
                old(self).spec_workspaces(),
                final(self).spec_workspaces(),
                wid,
                from as int,
                dest as int,
            ),
            old(self).spec_workspaces()[dest as int].can_allocate() && from == dest ==> only_changed(
                old(self).spec_workspaces(),
                final(self).spec_workspaces(),
                from as int,
            ) && readded(old(self).spec_workspaces()[from as int], final(self).spec_workspaces()[from as int], wid),
            final(effects)@ == old(effects)@ + between_effects(
                old(self).spec_workspaces(),
                old(self).spec_active(),
                from as int,
                dest as int,
            ),
    {
        assert(self.workspaces@[dest as int].wf());
        assert(self.workspaces@[from as int].wf());
        if !self.workspaces[dest].can_add_window() {
            return ;
        }
        let ghost w0 = self.workspaces@;
        self.workspaces[from].remove_window(wid);
        proof {
            crate::state::lemma_all_wf_update(w0, from as int, self.workspaces@[from as int]);
            assert(self.workspaces@ == w0.update(from as int, self.workspaces@[from as int]));
        }
        if self.is_workspace_visible(from) {
            effects.push(Effect::ApplyLayout(from));
        }
        let ghost w1 = self.workspaces@;
        assert(w1[dest as int].wf());
        assert(w1[dest as int].can_allocate()) by {
            if dest != from {
                assert(w1[dest as int] == w0[dest as int]);
            }
        }
        self.workspaces[dest].add_window(wid, None);
        proof {
            crate::state::lemma_all_wf_update(w1, dest as int, self.workspaces@[dest as int]);
            assert(self.workspaces@ == w1.update(dest as int, self.workspaces@[dest as int]));
            if from != dest {
                assert(w1[dest as int] == w0[dest as int]);
                assert(self.workspaces@[from as int] == w1[from as int]);
            }
        }
        if self.is_workspace_visible(dest) {
            effects.push(Effect::ApplyLayout(dest));
        }
    }
}

impl StateManager {
    /// The workspace display `mon` shows when that is a valid index, else
    /// its first workspace.
    fn shown_on(&self, mon: u32) -> (r: Option<usize>)
        requires
            self.wf(),
        ensures
            r matches Some(i) ==> i < self.spec_workspaces().len(),
            r == shown_on_spec(self.spec_workspaces(), self.spec_active(), mon),
    {
        match self.displays.active().get(&mon) {
            Some(idx) => {
                if *idx < self.workspaces.len() {
                    return Some(*idx);
                }
            },
            None => {},
        }
        let on = self.workspaces_on(mon);
        let n = self.workspaces.len();
        if on.len() > 0 {
            proof {
                assert(self.workspaces@.len() == n);
                crate::state::display::lemma_indices_on_range(self.workspaces@, mon);
                assert(on@.contains(on@[0]));
            }
            Some(on[0])
        } else {
            None
        }
    }

    /// Focus the window shown on the neighbouring display in `direction`.
    fn focus_display(&mut self, direction: Direction, displays: &[DisplayInfo], effects: &mut Vec<Effect>)
        requires
            old(self).wf(),
        ensures
            *final(self) == *old(self),
            exists|a: int|
                #[trigger] old(self).active_choice(a) && display_focus_effects(
                    old(self).spec_workspaces(),
                    old(self).spec_active(),
                    displays@,
                    a,
                    direction,
                    final(effects)@.skip(old(effects)@.len() as int),
                ),
            final(effects)@.take(old(effects)@.len() as int) == old(effects)@,
    {
        let ghost e0 = effects@;
        let current_idx = self.active_workspace_idx();
        let current_mon = self.workspaces[current_idx].monitor_id();
        assert(effects@.skip(e0.len() as int) =~= Seq::<Effect>::empty());
        assert(effects@.take(e0.len() as int) =~= e0);
        let target_mon = match Self::find_display_in_direction(current_mon, direction, displays) {
            Some(id) => id,
            None => {
                assert(no_target_display(displays@, self.workspaces@, current_idx as int, direction));
                assert(old(self).active_choice(current_idx as int));
                return ;
            },
        };
        let ghost k = choose|k: int|
            0 <= k < displays@.len() && #[trigger] displays@[k].id == target_mon && nearest_at(
                displays@,
                k,
                crate::adapter::display_with_id(displays@, current_mon)->0,
                current_mon,
                direction,
            );
        assert(target_display(displays@, self.workspaces@, current_idx as int, direction, k));
        let target_idx = match self.shown_on(target_mon) {
            Some(i) => i,
            None => {
                assert(old(self).active_choice(current_idx as int));
                return ;
            },
        };
        assert(self.workspaces@[target_idx as int].wf());
        match self.workspaces[target_idx].focused_window_id() {
            Some(wid) => effects.push(Effect::FocusWindow(wid)),
            None => effects.push(Effect::PublishBarState),
        }
        assert(effects@.skip(e0.len() as int) =~= seq![effects@[e0.len() as int]]);
        assert(effects@.take(e0.len() as int) =~= e0);
        assert(old(self).active_choice(current_idx as int));
    }

    /// Move the focused window to the workspace shown on the neighbouring
    /// display in `direction` (or the next one with room there).
    fn move_window_to_display(&mut self, direction: Direction, displays: &[DisplayInfo], effects: &mut Vec<Effect>)
        requires
            old(self).wf(),
        ensures
            final(self).wf(),
            final(self).spec_workspaces().len() == old(self).spec_workspaces().len(),
            Self::same_tracking(*final(self), *old(self)),
            exists|a: int|
                #[trigger] old(self).active_choice(a) && display_move_outcome(
                    old(self).spec_workspaces(),
                    final(self).spec_workspaces(),
                    old(self).spec_active(),
                    displays@,
                    a,
                    direction,
                    old(self).spec_max_tiles() as nat,
                    final(effects)@.skip(old(effects)@.len() as int),
                ),
            final(effects)@.take(old(effects)@.len() as int) == old(effects)@,
    {
        let ghost e0 = effects@;
        assert(effects@.skip(e0.len() as int) =~= Seq::<Effect>::empty());
        assert(effects@.take(e0.len() as int) =~= e0);
        let current_idx = self.active_workspace_idx();
        assert(old(self).active_choice(current_idx as int));
        let current_mon = self.workspaces[current_idx].monitor_id();
        let target_mon = match Self::find_display_in_direction(current_mon, direction, displays) {
            Some(id) => id,
            None => {
                assert(no_target_display(displays@, self.workspaces@, current_idx as int, direction));
                return ;
            },
        };
        let ghost k = choose|k: int|
            0 <= k < displays@.len() && #[trigger] displays@[k].id == target_mon && nearest_at(
                displays@,
                k,
                crate::adapter::display_with_id(displays@, current_mon)->0,
                current_mon,
                direction,
            );
        assert(target_display(displays@, self.workspaces@, current_idx as int, direction, k));
        assert(self.workspaces@[current_idx as int].wf());
        let wid = match self.workspaces[current_idx].focused_window_id() {
            Some(id) => id,
            None => return ,
        };
        let target_idx = match self.shown_on(target_mon) {
            Some(i) => i,
            None => return ,
        };
        assert(self.workspaces@[target_idx as int].wf());
        let n = self.workspaces.len();
        let dest = if self.workspaces[target_idx].window_count() >= self.router.max_tiles() {
            match self.router.find_next_with_capacity(&self.workspaces, target_idx) {
                Some(idx) => {
                    proof {
                        assert(self.workspaces@.len() == n);
                        crate::state::router::law_capacity_pick_has_room(
                            self.workspaces@,
                            target_idx as int,
                            self.router.spec_max_tiles() as nat,
                            1,
                        );
                    }
                    idx
                },
                None => return ,
            }
        } else {
            target_idx
        };
        self.move_window_between(wid, current_idx, dest, effects);
        effects.push(Effect::PublishBarState);
        assert(effects@.skip(e0.len() as int) =~= between_effects(
            old(self).spec_workspaces(),
            old(self).spec_active(),
            current_idx as int,
            dest as int,
        ).push(Effect::PublishBarState));
        assert(effects@.take(e0.len() as int) =~= e0);
    }
}

/// Workspace `idx` is the one its display shows.
pub open spec fn shown_in(ws: Seq<Workspace>, active: Map<u32, usize>, idx: int) -> bool {
    &&& 0 <= idx < ws.len()
    &&& active.contains_key(ws[idx].spec_monitor_id())
    &&& active[ws[idx].spec_monitor_id()] == idx
}

/// The layouts that moving a window from workspace `from` to `dest` calls
/// for: each of the two that is shown, in that order; none when `dest` has
/// no room for the window's node ids.
pub open spec fn between_effects(ws: Seq<Workspace>, active: Map<u32, usize>, from: int, dest: int) -> Seq<Effect> {
    if !ws[dest].can_allocate() {
        Seq::empty()
    } else {
        (if shown_in(ws, active, from) {
            seq![Effect::ApplyLayout(from as usize)]
        } else {
            Seq::empty()
        }) + (if shown_in(ws, active, dest) {
            seq![Effect::ApplyLayout(dest as usize)]
        } else {
            Seq::empty()
        })
    }
}

/// The effects of moving the focused window of workspace `a` towards
/// workspace `target` (see `focused_moved`): nothing when `a` is the target;
/// otherwise the layouts of the move, if any, then a bar update.
pub open spec fn moved_effects(ws: Seq<Workspace>, active: Map<u32, usize>, a: int, target: int, max: nat) -> Seq<
    Effect,
> {
    if a == target {
        Seq::empty()
    } else if ws[a].spec_focused() is None {
        seq![Effect::PublishBarState]
    } else {
        match landing(ws, target, max) {
            None => seq![Effect::PublishBarState],
            Some(d) => between_effects(ws, active, a, d as int).push(Effect::PublishBarState),
        }
    }
}

/// Window `wid` left workspace `from` (when it held it) and joined `dest`;
/// the other workspaces are unchanged.
pub open spec fn moved_between(before: Seq<Workspace>, after: Seq<Workspace>, wid: WindowId, from: int, dest: int) -> bool {
    &&& after.len() == before.len()
    &&& forall|j: int| 0 <= j < before.len() && j != from && j != dest ==> after[j] == before[j]
    &&& after[dest].window_seq() == before[dest].window_seq().push(wid)
    &&& has_window(before[from], wid) ==> exists|p: int|
        0 <= p < before[from].window_seq().len() && before[from].window_seq()[p] == wid && after[from].window_seq()
            == #[trigger] before[from].window_seq().remove(p)
    &&& !has_window(before[from], wid) ==> after[from].window_seq() == before[from].window_seq()
}

/// The result of moving the focused window of workspace `a` towards
/// workspace `target`: it joins the workspace it lands in (see `landing`);
/// nothing changes when `a` is the target, has no focus, or no workspace
/// has room.
pub open spec fn focused_moved(before: Seq<Workspace>, after: Seq<Workspace>, a: int, target: int, max: nat) -> bool {
    if a == target || before[a].spec_focused() is None {
        after == before
    } else {
        let wid = crate::shape::window_of(before[a].nodes(), before[a].spec_focused()->0);
        match landing(before, target, max) {
            None => after == before,
            Some(d) => if !before[d as int].can_allocate() {
                after == before
            } else if d as int != a {
                moved_between(before, after, wid, a, d as int)
            } else {
                only_changed(before, after, a) && readded(before[a], after[a], wid)
            },
        }
    }
}

/// The workspace display `mon` shows when that is a valid index, else its
/// first workspace.
pub open spec fn shown_on_spec(ws: Seq<Workspace>, active: Map<u32, usize>, mon: u32) -> Option<usize> {
    if active.contains_key(mon) && active[mon] < ws.len() {
        Some(active[mon])
    } else if indices_on(ws, mon).len() > 0 {
        Some(indices_on(ws, mon)[0])
    } else {
        None
    }
}

/// The display nearest in `direction` to the display of workspace `a`,
/// given as the index in `displays` of its first nearest entry.
pub open spec fn target_display(displays: Seq<DisplayInfo>, ws: Seq<Workspace>, a: int, direction: Direction, k: int) -> bool {
    let cur = ws[a].spec_monitor_id();
    &&& display_with_id_is_some(displays, cur)
    &&& 0 <= k < displays.len()
    &&& nearest_at(displays, k, crate::adapter::display_with_id(displays, cur)->0, cur, direction)
}

/// No display lies in `direction` from the display of workspace `a`.
pub open spec fn no_target_display(displays: Seq<DisplayInfo>, ws: Seq<Workspace>, a: int, direction: Direction) -> bool {
    let cur = ws[a].spec_monitor_id();
    display_with_id_is_none(displays, cur) || forall|k: int|
        0 <= k < displays.len() ==> !candidate(
            #[trigger] displays[k],
            crate::adapter::display_with_id(displays, cur)->0,
            cur,
            direction,
        )
}

/// The effects of focusing the display in `direction` from workspace `a`:
/// the focused window of the workspace shown there, or a bar update when it
/// has none; nothing when there is no such display or workspace.
pub open spec fn display_focus_effects(
    ws: Seq<Workspace>,
    active: Map<u32, usize>,
    displays: Seq<DisplayInfo>,
    a: int,
    direction: Direction,
    r: Seq<Effect>,
) -> bool {
    ||| no_target_display(displays, ws, a, direction) && r.len() == 0
    ||| exists|k: int|
        #[trigger] target_display(displays, ws, a, direction, k) && match shown_on_spec(ws, active, displays[k].id) {
            None => r.len() == 0,
            Some(t) => match ws[t as int].spec_focused() {
                Some(f) => r == seq![Effect::FocusWindow(crate::shape::window_of(ws[t as int].nodes(), f))],
                None => r == seq![Effect::PublishBarState],
            },
        }
}

/// What moving the focused window of workspace `a` to the display in
/// `direction` does: it lands in the workspace shown there (or the next
/// with room on that display) as `focused_moved` describes; nothing changes
/// without such a display, a focus, a workspace there, or room.
pub open spec fn display_move_outcome(
    before: Seq<Workspace>,
    after: Seq<Workspace>,
    active: Map<u32, usize>,
    displays: Seq<DisplayInfo>,
    a: int,
    direction: Direction,
    max: nat,
    e: Seq<Effect>,
) -> bool {
    ||| no_target_display(displays, before, a, direction) && after == before && e.len() == 0
    ||| exists|k: int|
        #[trigger] target_display(displays, before, a, direction, k) && match shown_on_spec(
            before,
            active,
            displays[k].id,
        ) {
            None => after == before && e.len() == 0,
            Some(t) => if before[a].spec_focused() is None {
                after == before && e.len() == 0
            } else {
                let wid = crate::shape::window_of(before[a].nodes(), before[a].spec_focused()->0);
                match landing(before, t as int, max) {
                    None => after == before && e.len() == 0,
                    Some(d) => e == between_effects(before, active, a, d as int).push(Effect::PublishBarState) && if !before[
                        d as int
                    ].can_allocate() {
                        after == before
                    } else if d as int != a {
                        moved_between(before, after, wid, a, d as int)
                    } else {
                        only_changed(before, after, a) && readded(before[a], after[a], wid)
                    },
                }
            },
        }
}

/// Window `wid` was taken out of workspace `before` (when it held it) and
/// added to it again as its newest window.
pub open spec fn readded(before: Workspace, after: Workspace, wid: WindowId) -> bool {
    &&& has_window(before, wid) ==> exists|p: int|
        0 <= p < before.window_seq().len() && before.window_seq()[p] == wid && after.window_seq()
            == #[trigger] before.window_seq().remove(p).push(wid)
    &&& !has_window(before, wid) ==> after.window_seq() == before.window_seq().push(wid)
}

/// `after` is `before` with workspace `i` replaced by `w`.
pub open spec fn only_changed(before: Seq<Workspace>, after: Seq<Workspace>, i: int) -> bool {
    &&& after.len() == before.len()
    &&& forall|j: int| 0 <= j < before.len() && j != i ==> after[j] == before[j]
}

impl StateManager {
    /// Handle a command from a client, a keybind or the configuration
    /// watcher. `displays` and `primary` describe the current displays;
    /// `now` is the time in milliseconds. Every command but `QueryState`
    /// and `Quit` ends with an acknowledgement and a bar update.
    #[verifier::rlimit(60)]
    pub fn on_command(&mut self, cmd: Command, displays: &[DisplayInfo], primary: u32, now: u64) -> (r: Vec<Effect>)
        requires
            old(self).wf(),
        ensures
            final(self).wf(),
            final(self).spec_workspaces().len() == old(self).spec_workspaces().len(),
            final(self).spec_window_pids() == old(self).spec_window_pids(),
            final(self).spec_hidden() == old(self).spec_hidden(),
            final(self).spec_frontmost() == old(self).spec_frontmost(),
            final(self).spec_max_tiles() == old(self).spec_max_tiles(),
            final(self).spec_pid_windows() == old(self).spec_pid_windows(),
            final(self).spec_excluded() == old(self).spec_excluded(),
            final(self).spec_entries() == old(self).spec_entries(),
            final(self).spec_restricted() == old(self).spec_restricted(),
            final(self).spec_drag() == old(self).spec_drag(),
            !(cmd is ToggleBar) ==> final(self).spec_bar() == old(self).spec_bar(),
            !(cmd is Workspace) ==> final(self).spec_debounce() == old(self).spec_debounce(),
            cmd == Command::Quit ==> final(self).spec_shutdown() && r@.len() == 3 && (r@[0] matches Effect::Reply(
                DaemonResponse::Ack,
            )) && (r@[1] matches Effect::SendBar(BarSignal::Exit)) && (r@[2] matches Effect::Shutdown),
            cmd != Command::Quit ==> final(self).spec_shutdown() == old(self).spec_shutdown(),
            cmd == Command::QueryState ==> *final(self) == *old(self) && r@.len() == 1 && (r@[0] matches Effect::Reply(
                DaemonResponse::State { workspaces },
            ) && workspaces@.len() == old(self).spec_workspaces().len() && forall|i: int|
                0 <= i < workspaces@.len() ==> info_matches(#[trigger] workspaces@[i], old(self).spec_workspaces()[i])),
            cmd matches Command::SetGapOuter { pixels } ==> final(self).spec_gaps() == (
                if pixels < 0 {
                    0
                } else {
                    pixels
                },
                old(self).spec_gaps().1,
            ),
            cmd matches Command::SetGapInner { pixels } ==> final(self).spec_gaps() == (
                old(self).spec_gaps().0,
                if pixels < 0 {
                    0
                } else {
                    pixels
                },
            ),
            !(cmd is SetGapOuter || cmd is SetGapInner) ==> final(self).spec_gaps() == old(self).spec_gaps(),
            (cmd is SetGapOuter || cmd is SetGapInner) ==> final(self).spec_workspaces() == old(self).spec_workspaces()
                && exists|a: int|
                #[trigger] old(self).active_choice(a) && r@ == seq![
                    Effect::ApplyLayout(a as usize),
                    Effect::Reply(DaemonResponse::Ack),
                    Effect::PublishBarState,
                ],
            !(cmd is QueryState || cmd is Quit) ==> forall|i: int|
                0 <= i < r@.len() - 2 ==> !(#[trigger] r@[i] is Reply),
            cmd is ToggleLayout ==> exists|a: int|
                #[trigger] old(self).active_choice(a) && only_changed(
                    old(self).spec_workspaces(),
                    final(self).spec_workspaces(),
                    a,
                ) && final(self).spec_workspaces()[a].spec_monocle() == !old(self).spec_workspaces()[a].spec_monocle()
                    && final(self).spec_workspaces()[a].nodes() == old(self).spec_workspaces()[a].nodes() && r@ == seq![
                    Effect::ApplyLayout(a as usize),
                    Effect::Reply(DaemonResponse::Ack),
                    Effect::PublishBarState,
                ],
            cmd matches Command::SetLayout { mode } ==> exists|a: int|
                #[trigger] old(self).active_choice(a) && only_changed(
                    old(self).spec_workspaces(),
                    final(self).spec_workspaces(),
                    a,
                ) && final(self).spec_workspaces()[a].spec_monocle() == (mode == LayoutMode::Accordion)
                    && final(self).spec_workspaces()[a].nodes() == old(self).spec_workspaces()[a].nodes() && r@ == seq![
                    Effect::ApplyLayout(a as usize),
                    Effect::Reply(DaemonResponse::Ack),
                    Effect::PublishBarState,
                ],
            cmd matches Command::Workspace { id } ==> final(self).spec_workspaces() == old(self).spec_workspaces()
                && exists|a: int|
                #[trigger] old(self).active_choice(a) && ({
                    let mon = old(self).spec_workspaces()[a].spec_monitor_id();
                    let on = indices_on(old(self).spec_workspaces(), mon);
                    if 1 <= id <= on.len() && on[id - 1] != a {
                        &&& final(self).spec_active() == old(self).spec_active().insert(mon, on[id - 1])
                        &&& final(self).spec_debounce() == Some(debounce_until(now))
                        &&& exists|h: Seq<Effect>|
                            #[trigger] hides_in_order(h, old(self).spec_workspaces(), others(on, on[id - 1])) && r@ == h
                                + seq![
                                Effect::ApplyLayout(on[id - 1]),
                                Effect::Reply(DaemonResponse::Ack),
                                Effect::PublishBarState,
                            ]
                    } else {
                        final(self).spec_active() == old(self).spec_active() && r@ == seq![
                            Effect::Reply(DaemonResponse::Ack),
                            Effect::PublishBarState,
                        ]
                    }
                }),
            !(cmd is Workspace) ==> final(self).spec_active() == old(self).spec_active(),
            !(cmd is QueryState || cmd is Quit) ==> r@.len() >= 2 && (r@[r@.len() - 2] matches Effect::Reply(
                DaemonResponse::Ack,
            )) && (r@[r@.len() - 1] matches Effect::PublishBarState),
            cmd is ReloadConfig ==> *final(self) == *old(self) && r@.len() == 3 && (r@[0] matches Effect::LoadConfig),
            cmd matches Command::Split { direction } ==> exists|a: int|
                #[trigger] old(self).active_choice(a) && only_changed(
                    old(self).spec_workspaces(),
                    final(self).spec_workspaces(),
                    a,
                ) && final(self).spec_workspaces()[a].nodes() == old(self).spec_workspaces()[a].nodes()
                    && final(self).spec_workspaces()[a].spec_pending() == (if old(
                    self,
                ).spec_workspaces()[a].spec_focused() is Some {
                    Some(direction)
                } else {
                    old(self).spec_workspaces()[a].spec_pending()
                }) && r@.len() == 3 && (r@[0] matches Effect::ApplyLayout(i) && i == a),
            cmd matches Command::Focus { direction } ==> exists|a: int|
                #[trigger] old(self).active_choice(a) && only_changed(
                    old(self).spec_workspaces(),
                    final(self).spec_workspaces(),
                    a,
                ) && focused_along(old(self).spec_workspaces()[a], final(self).spec_workspaces()[a], direction)
                    && r@.take(r@.len() - 2) == match final(self).spec_workspaces()[a].spec_focused() {
                    Some(f) => seq![
                        Effect::FocusWindow(crate::shape::window_of(final(self).spec_workspaces()[a].nodes(), f)),
                    ],
                    None => Seq::empty(),
                },
            cmd matches Command::MoveWindow { direction } ==> exists|a: int|
                #[trigger] old(self).active_choice(a) && only_changed(
                    old(self).spec_workspaces(),
                    final(self).spec_workspaces(),
                    a,
                ) && swapped_along(old(self).spec_workspaces()[a], final(self).spec_workspaces()[a], direction)
                    && r@.len() == 3 && (r@[0] matches Effect::ApplyLayout(i) && i == a),
            cmd matches Command::MoveWindowToWorkspace { id } ==> exists|a: int|
                #[trigger] old(self).active_choice(a) && ({
                    let on = indices_on(old(self).spec_workspaces(), old(self).spec_workspaces()[a].spec_monitor_id());
                    if 1 <= id <= on.len() {
                        &&& focused_moved(
                            old(self).spec_workspaces(),
                            final(self).spec_workspaces(),
                            a,
                            on[id - 1] as int,
                            old(self).spec_max_tiles() as nat,
                        )
                        &&& r@ == moved_effects(
                            old(self).spec_workspaces(),
                            old(self).spec_active(),
                            a,
                            on[id - 1] as int,
                            old(self).spec_max_tiles() as nat,
                        ) + seq![Effect::Reply(DaemonResponse::Ack), Effect::PublishBarState]
                    } else {
                        final(self).spec_workspaces() == old(self).spec_workspaces() && r@ == seq![
                            Effect::Reply(DaemonResponse::Ack),
                            Effect::PublishBarState,
                        ]
                    }
                }),
            cmd matches Command::FocusDisplay { direction } ==> *final(self) == *old(self) && exists|a: int|
                #[trigger] old(self).active_choice(a) && display_focus_effects(
                    old(self).spec_workspaces(),
                    old(self).spec_active(),
                    displays@,
                    a,
                    direction,
                    r@.take(r@.len() - 2),
                ),
            cmd matches Command::MoveWindowToDisplay { direction } ==> exists|a: int|
                #[trigger] old(self).active_choice(a) && display_move_outcome(
                    old(self).spec_workspaces(),
                    final(self).spec_workspaces(),
                    old(self).spec_active(),
                    displays@,
                    a,
                    direction,
                    old(self).spec_max_tiles() as nat,
                    r@.take(r@.len() - 2),
                ),
            cmd is ToggleBar ==> final(self).spec_bar().spec_config() == old(self).spec_bar().spec_config()
                && final(self).spec_bar().spec_spawned() == old(self).spec_bar().spec_spawned() && if old(
                self,
            ).spec_bar().spec_spawned() {
                &&& final(self).spec_bar().spec_visible() == !old(self).spec_bar().spec_visible()
                &&& forall|i: int|
                    0 <= i < old(self).spec_workspaces().len() ==> reserved_as(
                        #[trigger] old(self).spec_workspaces()[i],
                        final(self).spec_workspaces()[i],
                        reserve_for(final(self).spec_bar(), old(self).spec_workspaces()[i], primary, displays@),
                    )
            } else {
                &&& final(self).spec_bar().spec_visible() == old(self).spec_bar().spec_visible()
                &&& final(self).spec_workspaces() == old(self).spec_workspaces()
            },
            cmd is ToggleBar ==> r@ == (if old(self).spec_bar().spec_spawned() {
                seq![
                    Effect::SendBar(
                        if final(self).spec_bar().spec_visible() {
                            BarSignal::Show
                        } else {
                            BarSignal::Hide
                        },
                    ),
                ] + layout_all(old(self).spec_workspaces().len())
            } else {
                Seq::empty()
            }) + seq![Effect::Reply(DaemonResponse::Ack), Effect::PublishBarState],
            cmd is Close ==> *final(self) == *old(self) && exists|a: int|
                #[trigger] old(self).active_choice(a) && ({
                    let ws = old(self).spec_workspaces()[a];
                    match ws.spec_focused() {
                        Some(f) => r@.len() == 3 && (r@[0] matches Effect::CloseWindow(w) && w
                            == crate::shape::window_of(ws.nodes(), f)),
                        None => r@.len() == 2,
                    }
                }),
    {
        let mut effects: Vec<Effect> = Vec::new();
        match cmd {
            Command::Focus { direction } => {
                effects = self.focus_command(direction);
            },
            Command::MoveWindow { direction } => {
                effects = self.swap_command(direction);
            },
            Command::Split { direction } => {
                let idx = self.active_workspace_idx();
                let ghost w0 = self.workspaces@;
                assert(w0[idx as int].wf());
                self.workspaces[idx].apply_split_direction(direction);
                proof {
                    crate::state::lemma_all_wf_update(w0, idx as int, self.workspaces@[idx as int]);
                }
                effects.push(Effect::ApplyLayout(idx));
            },
            Command::Workspace { id } => {
                self.switch_workspace(id, now, &mut effects);
            },
            Command::MoveWindowToWorkspace { id } => {
                let current_idx = self.active_workspace_idx();
                let current_mon = self.workspaces[current_idx].monitor_id();
                let on_mon = self.workspaces_on(current_mon);
                let n = self.workspaces.len();
                proof {
                    assert(self.workspaces@.len() == n);
                    crate::state::display::lemma_indices_on_range(self.workspaces@, current_mon);
                }
                assert(old(self).active_choice(current_idx as int));
                if 1 <= id && (id as usize) <= on_mon.len() {
                    let target = on_mon[(id - 1) as usize];
                    assert(on_mon@[(id - 1) as int] == target);
                    self.move_focused_into(current_idx, target, &mut effects);
                }
            },
            Command::FocusDisplay { direction } => {
                self.focus_display(direction, displays, &mut effects);
                assert(effects@.skip(0) =~= effects@);
            },
            Command::MoveWindowToDisplay { direction } => {
                self.move_window_to_display(direction, displays, &mut effects);
                assert(effects@.skip(0) =~= effects@);
            },
            Command::Close => {
                let idx = self.active_workspace_idx();
                assert(self.workspaces@[idx as int].wf());
                match self.workspaces[idx].focused_window_id() {
                    Some(wid) => effects.push(Effect::CloseWindow(wid)),
                    None => {},
                }
            },
            Command::ToggleLayout => {
                let idx = self.active_workspace_idx();
                let ghost w0 = self.workspaces@;
                assert(w0[idx as int].wf());
                self.workspaces[idx].toggle_monocle();
                proof {
                    crate::state::lemma_all_wf_update(w0, idx as int, self.workspaces@[idx as int]);
                }
                effects.push(Effect::ApplyLayout(idx));
            },
            Command::SetLayout { mode } => {
                let idx = self.active_workspace_idx();
                let ghost w0 = self.workspaces@;
                assert(w0[idx as int].wf());
                let accordion = match mode {
                    LayoutMode::Accordion => true,
                    LayoutMode::Tile => false,
                };
                self.workspaces[idx].set_monocle(accordion);
                proof {
                    crate::state::lemma_all_wf_update(w0, idx as int, self.workspaces@[idx as int]);
                }
                effects.push(Effect::ApplyLayout(idx));
            },
            Command::SetGapOuter { pixels } => {
                let idx = self.active_workspace_idx();
                assert(old(self).active_choice(idx as int));
                self.gap_outer = if pixels < 0 {
                    0
                } else {
                    pixels
                };
                effects.push(Effect::ApplyLayout(idx));
            },
            Command::SetGapInner { pixels } => {
                let idx = self.active_workspace_idx();
                assert(old(self).active_choice(idx as int));
                self.gap_inner = if pixels < 0 {
                    0
                } else {
                    pixels
                };
                effects.push(Effect::ApplyLayout(idx));
            },
            Command::ToggleBar => {
                match self.bar.toggle() {
                    ToggleAction::Show(_) => {
                        effects.push(Effect::SendBar(BarSignal::Show));
                        self.reserve_bar_strip(primary, displays, &mut effects);
                    },
                    ToggleAction::Hide => {
                        effects.push(Effect::SendBar(BarSignal::Hide));
                        self.reserve_bar_strip(primary, displays, &mut effects);
                    },
                    ToggleAction::Noop => {},
                }
            },
            Command::ReloadConfig => {
                effects.push(Effect::LoadConfig);
            },
            Command::QueryState => {
                let info = self.workspace_infos();
                effects.push(Effect::Reply(DaemonResponse::State { workspaces: info }));
                return effects;
            },
            Command::Quit => {
                effects.push(Effect::Reply(DaemonResponse::Ack));
                effects.push(Effect::SendBar(BarSignal::Exit));
                self.shutdown_requested = true;
                effects.push(Effect::Shutdown);
                return effects;
            },
        }
        let ghost pre = effects@;
        effects.push(Effect::Reply(DaemonResponse::Ack));
        effects.push(Effect::PublishBarState);
        proof {
            assert(effects@.take(effects@.len() - 2) =~= pre);
            assert(effects@ =~= pre + seq![Effect::Reply(DaemonResponse::Ack), Effect::PublishBarState]);
        }
        effects
    }
}


impl StateManager {
    /// Show workspace `id` (counted from 1 among the workspaces of the
    /// active workspace's display): the others there are hidden in order,
    /// then the new one is laid out, and focus notifications are held off
    /// for the debounce time. Nothing happens for another number or the
    /// workspace already shown.
    fn switch_workspace(&mut self, id: u32, now: u64, effects: &mut Vec<Effect>)
        requires
            old(self).wf(),
            old(effects)@.len() == 0,
        ensures
            final(self).wf(),
            final(self).spec_workspaces() == old(self).spec_workspaces(),
            final(self).spec_window_pids() == old(self).spec_window_pids(),
            final(self).spec_pid_windows() == old(self).spec_pid_windows(),
            final(self).spec_excluded() == old(self).spec_excluded(),
            final(self).spec_hidden() == old(self).spec_hidden(),
            final(self).spec_frontmost() == old(self).spec_frontmost(),
            final(self).spec_gaps() == old(self).spec_gaps(),
            final(self).spec_shutdown() == old(self).spec_shutdown(),
            final(self).spec_max_tiles() == old(self).spec_max_tiles(),
            final(self).spec_entries() == old(self).spec_entries(),
            final(self).spec_restricted() == old(self).spec_restricted(),
            final(self).spec_bar() == old(self).spec_bar(),
            final(self).spec_drag() == old(self).spec_drag(),
            exists|a: int|
                #[trigger] old(self).active_choice(a) && ({
                    let mon = old(self).spec_workspaces()[a].spec_monitor_id();
                    let on = indices_on(old(self).spec_workspaces(), mon);
                    if 1 <= id <= on.len() && on[id - 1] != a {
                        &&& final(self).spec_active() == old(self).spec_active().insert(mon, on[id - 1])
                        &&& final(self).spec_debounce() == Some(debounce_until(now))
                        &&& exists|h: Seq<Effect>|
                            #[trigger] hides_in_order(h, old(self).spec_workspaces(), others(on, on[id - 1]))
                                && final(effects)@ == h.push(Effect::ApplyLayout(on[id - 1]))
                    } else {
                        &&& final(self).spec_active() == old(self).spec_active()
                        &&& final(self).spec_debounce() == old(self).spec_debounce()
                        &&& final(effects)@.len() == 0
                    }
                }),
    {
        let current_idx = self.active_workspace_idx();
        let current_mon = self.workspaces[current_idx].monitor_id();
        let on_mon = self.workspaces_on(current_mon);
        let n = self.workspaces.len();
        proof {
            assert(self.workspaces@.len() == n);
            crate::state::display::lemma_indices_on_range(self.workspaces@, current_mon);
        }
        if 1 <= id && (id as usize) <= on_mon.len() {
            let new_idx = on_mon[(id - 1) as usize];
            assert(on_mon@.contains(new_idx)) by {
                assert(on_mon@[(id - 1) as int] == new_idx);
            }
            if new_idx != current_idx {
                let mut k: usize = 0;
                assert(on_mon@.take(0) =~= Seq::<usize>::empty());
                while k < on_mon.len()
                    invariant
                        self.wf(),
                        k <= on_mon@.len(),
                        on_mon@ == indices_on(self.workspaces@, current_mon),
                        forall|q: int|
                            0 <= q < on_mon@.len() ==> (#[trigger] on_mon@[q]) < self.workspaces@.len(),
                        hides_in_order(effects@, self.workspaces@, others(on_mon@.take(k as int), new_idx)),
                    decreases on_mon@.len() - k,
                {
                    assert(on_mon@.contains(on_mon@[k as int]));
                    let ghost e0 = effects@;
                    assert(on_mon@.take(k + 1).drop_last() =~= on_mon@.take(k as int));
                    assert(on_mon@.take(k + 1).last() == on_mon@[k as int]);
                    if on_mon[k] != new_idx {
                        effects.push(self.hide_workspace(on_mon[k]));
                    }
                    k = k + 1;
                }
                assert(on_mon@.take(k as int) =~= on_mon@);
                let ghost hs = effects@;
                let ghost a0 = self.displays.spec_active();
                self.displays.active_mut().insert(current_mon, new_idx);
                assert(self.displays.spec_active() == a0.insert(current_mon, new_idx));
                assert(new_idx < self.workspaces@.len());
                self.switch_debounce_until = Some(now.saturating_add(SWITCH_DEBOUNCE_MS));
                assert(self.spec_debounce() == Some(debounce_until(now)));
                effects.push(Effect::ApplyLayout(new_idx));
                assert(effects@ == hs.push(Effect::ApplyLayout(new_idx)));
            }
        }
        assert(old(self).active_choice(current_idx as int));
    }
}

/// The strip reserved in workspace `ws`: the bar's strip on the primary
/// display while the bar is shown, nothing elsewhere.
pub open spec fn reserve_for(bar: BarReserve, ws: Workspace, primary: u32, displays: Seq<DisplayInfo>) -> Option<Rect> {
    if ws.spec_monitor_id() == primary && bar.spec_visible() && bar.spec_spawned() {
        strip_on(bar.spec_config(), primary, displays)
    } else {
        None
    }
}

/// `after` is `mid` with the bar strip reserved again in each workspace.
pub open spec fn reserved_all(
    mid: Seq<Workspace>,
    after: Seq<Workspace>,
    bar: BarReserve,
    primary: u32,
    displays: Seq<DisplayInfo>,
) -> bool {
    &&& after.len() == mid.len()
    &&& forall|i: int|
        0 <= i < mid.len() ==> reserved_as(#[trigger] mid[i], after[i], reserve_for(bar, mid[i], primary, displays))
}

/// The indices below `n` that no display shows, in order.
pub open spec fn unshown_indices(active: Map<u32, usize>, n: nat) -> Seq<usize>
    decreases n,
{
    if n == 0 {
        Seq::empty()
    } else {
        let pre = unshown_indices(active, (n - 1) as nat);
        if active.contains_value((n - 1) as usize) {
            pre
        } else {
            pre.push((n - 1) as usize)
        }
    }
}

proof fn lemma_unshown_below(active: Map<u32, usize>, n: nat, k: int)
    requires
        0 <= k < unshown_indices(active, n).len(),
    ensures
        unshown_indices(active, n)[k] < n,
    decreases n,
{
    if n > 0 {
        let pre = unshown_indices(active, (n - 1) as nat);
        if k < pre.len() {
            lemma_unshown_below(active, (n - 1) as nat, k);
        }
    }
}

/// The entries of `on` other than `x`, in order.
pub open spec fn others(on: Seq<usize>, x: usize) -> Seq<usize>
    decreases on.len(),
{
    if on.len() == 0 {
        Seq::empty()
    } else if on.last() == x {
        others(on.drop_last(), x)
    } else {
        others(on.drop_last(), x).push(on.last())
    }
}

/// Effect `k` of `h` hides every window of workspace `idx[k]`, for each `k`.
pub open spec fn hides_in_order(h: Seq<Effect>, ws: Seq<Workspace>, idx: Seq<usize>) -> bool {
    &&& h.len() == idx.len()
    &&& forall|k: int| 0 <= k < h.len() ==> hides(#[trigger] h[k], ws[idx[k] as int])
}

/// A layout of each of the first `n` workspaces, in order.
pub open spec fn layout_all(n: nat) -> Seq<Effect> {
    Seq::new(n, |i: int| Effect::ApplyLayout(i as usize))
}

/// `pids` after recording that each of `windows` belongs to `pid`.
pub open spec fn pids_with(pids: Map<WindowId, i32>, pid: i32, windows: Seq<WindowId>) -> Map<WindowId, i32> {
    Map::new(
        |w: WindowId| pids.contains_key(w) || windows.contains(w),
        |w: WindowId|
            if windows.contains(w) {
                pid
            } else {
                pids[w]
            },
    )
}

/// `lists` after appending `windows` to the list of `pid`.
pub open spec fn lists_with(lists: Map<i32, Seq<WindowId>>, pid: i32, windows: Seq<WindowId>) -> Map<
    i32,
    Seq<WindowId>,
> {
    if windows.len() == 0 {
        lists
    } else {
        lists.insert(
            pid,
            (if lists.contains_key(pid) {
                lists[pid]
            } else {
                Seq::empty()
            }) + windows,
        )
    }
}

/// The window-to-app map after recording every app of `apps` in order.
pub open spec fn pids_of_apps(apps: Seq<(i32, Vec<WindowId>)>) -> Map<WindowId, i32>
    decreases apps.len(),
{
    if apps.len() == 0 {
        Map::empty()
    } else {
        pids_with(pids_of_apps(apps.drop_last()), apps.last().0, apps.last().1@)
    }
}

/// The app-to-windows lists after recording every app of `apps` in order.
pub open spec fn lists_of_apps(apps: Seq<(i32, Vec<WindowId>)>) -> Map<i32, Seq<WindowId>>
    decreases apps.len(),
{
    if apps.len() == 0 {
        Map::empty()
    } else {
        lists_with(lists_of_apps(apps.drop_last()), apps.last().0, apps.last().1@)
    }
}

/// The effects of starting to watch an app: attach, then one queued
/// window-created event per window.
pub open spec fn watch_effects(pid: i32, windows: Seq<WindowId>) -> Seq<Effect> {
    seq![Effect::AttachObserver(pid)] + windows.map_values(|w: WindowId| Effect::QueueWindowCreated(w, pid))
}

/// The effects of watching every app of `apps` in order.
pub open spec fn watch_all_effects(apps: Seq<(i32, Vec<WindowId>)>) -> Seq<Effect>
    decreases apps.len(),
{
    if apps.len() == 0 {
        Seq::empty()
    } else {
        watch_all_effects(apps.drop_last()) + watch_effects(apps.last().0, apps.last().1@)
    }
}

/// Whether `m` maps some display to `v`.
fn map_has_value(m: &HashMap<u32, usize>, v: usize) -> (r: bool)
    ensures
        r == m@.contains_value(v),
{
    let ghost ks = vstd::std_specs::hash::spec_keys_iter(m).remaining();
    assert(ks.unref().to_set() == m@.dom());
    let mut found = false;
    let ghost mut idx: int = 0;
    for k in it: m.keys()
        invariant
            it.seq() == ks,
            idx == it.index(),
            ks.unref().to_set() == m@.dom(),
            found == exists|j: int| 0 <= j < idx && m@.contains_key(*ks[j]) && m@[*ks[j]] == v,
    {
        assert(k == ks[idx]);
        match m.get(k) {
            Some(x) => if *x == v {
                found = true;
            },
            None => {},
        }
        proof {
            idx = idx + 1;
        }
    }
    proof {
        if m@.contains_value(v) {
            let k = choose|k: u32| m@.dom().contains(k) && m@[k] == v;
            assert(ks.unref().to_set().contains(k));
            let j = choose|j: int| 0 <= j < ks.unref().len() && ks.unref()[j] == k;
            assert(ks.unref()[j] == *ks[j]);
        }
        if found {
            let j = choose|j: int| 0 <= j < idx && m@.contains_key(*ks[j]) && m@[*ks[j]] == v;
            assert(m@.dom().contains(*ks[j]));
        }
    }
    found
}

impl StateManager {
    /// Everything but the app tracking is unchanged.
    pub open spec fn same_but_apps(a: StateManager, b: StateManager) -> bool {
        &&& a.spec_workspaces() == b.spec_workspaces()
        &&& a.spec_active() == b.spec_active()
        &&& a.spec_hidden() == b.spec_hidden()
        &&& a.spec_frontmost() == b.spec_frontmost()
        &&& a.spec_gaps() == b.spec_gaps()
        &&& a.spec_shutdown() == b.spec_shutdown()
        &&& a.spec_max_tiles() == b.spec_max_tiles()
        &&& a.spec_excluded() == b.spec_excluded()
        &&& a.spec_bar() == b.spec_bar()
        &&& a.spec_entries() == b.spec_entries()
        &&& a.spec_restricted() == b.spec_restricted()
        &&& a.spec_debounce() == b.spec_debounce()
    }

    /// Record that each of `windows` belongs to app `pid`.
    fn record_windows(&mut self, pid: i32, windows: &Vec<WindowId>)
        requires
            old(self).wf(),
        ensures
            final(self).wf(),
            Self::same_but_apps(*final(self), *old(self)),
            final(self).spec_window_pids() == pids_with(old(self).spec_window_pids(), pid, windows@),
            final(self).spec_pid_windows() == lists_with(old(self).spec_pid_windows(), pid, windows@),
    {
        let ghost p0 = self.spec_window_pids();
        let ghost l0 = self.spec_pid_windows();
        let mut i: usize = 0;
        assert(windows@.take(0) =~= Seq::<WindowId>::empty());
        assert(pids_with(p0, pid, Seq::empty()) =~= p0);
        while i < windows.len()
            invariant
                self.wf(),
                Self::same_but_apps(*self, *old(self)),
                i <= windows@.len(),
                p0 == old(self).spec_window_pids(),
                l0 == old(self).spec_pid_windows(),
                self.spec_window_pids() == pids_with(p0, pid, windows@.take(i as int)),
                self.spec_pid_windows() == lists_with(l0, pid, windows@.take(i as int)),
            decreases windows@.len() - i,
        {
            let w = windows[i];
            let ghost before = self.spec_pid_windows();
            self.window_pids.insert(w, pid);
            let ghost raw0 = self.pid_to_windows@;
            let mut list = match self.pid_to_windows.remove(&pid) {
                Some(v) => v,
                None => Vec::new(),
            };
            assert(list@ == if before.contains_key(pid) {
                before[pid]
            } else {
                Seq::<WindowId>::empty()
            });
            list.push(w);
            let ghost lv = list@;
            self.pid_to_windows.insert(pid, list);
            assert(self.spec_pid_windows() =~= before.insert(pid, lv)) by {
                assert(self.pid_to_windows@ =~= raw0.insert(pid, self.pid_to_windows@[pid]));
            }
            proof {
                let t = windows@.take(i + 1);
                assert(t =~= windows@.take(i as int).push(w));
                assert(self.spec_window_pids() =~= pids_with(p0, pid, t)) by {
                    assert forall|x: WindowId| t.contains(x) == (windows@.take(i as int).contains(x) || x == w) by {
                        if t.contains(x) && x != w {
                            let j = choose|j: int| 0 <= j < t.len() && t[j] == x;
                            assert(windows@.take(i as int)[j] == x);
                        }
                        if windows@.take(i as int).contains(x) {
                            let j = choose|j: int| 0 <= j < i && windows@.take(i as int)[j] == x;
                            assert(t[j] == x);
                        }
                        if x == w {
                            assert(t[i as int] == x);
                        }
                    }
                }
                assert(self.spec_pid_windows() =~= lists_with(l0, pid, t)) by {
                    let base = if l0.contains_key(pid) {
                        l0[pid]
                    } else {
                        Seq::<WindowId>::empty()
                    };
                    if i == 0 {
                        assert(before == l0);
                        assert(lv =~= base + t);
                    } else {
                        assert(before == l0.insert(pid, base + windows@.take(i as int)));
                        assert(lv =~= base + t);
                    }
                }
            }
            i = i + 1;
        }
        assert(windows@.take(i as int) =~= windows@);
    }

    /// Start watching app `pid`, record its windows and queue them as
    /// created.
    fn watch_app(&mut self, pid: i32, windows: &Vec<WindowId>, effects: &mut Vec<Effect>)
        requires
            old(self).wf(),
        ensures
            final(self).wf(),
            Self::same_but_apps(*final(self), *old(self)),
            final(self).spec_window_pids() == pids_with(old(self).spec_window_pids(), pid, windows@),
            final(self).spec_pid_windows() == lists_with(old(self).spec_pid_windows(), pid, windows@),
            final(effects)@ == old(effects)@ + watch_effects(pid, windows@),
    {
        let ghost e0 = effects@;
        effects.push(Effect::AttachObserver(pid));
        self.record_windows(pid, windows);
        let mut i: usize = 0;
        while i < windows.len()
            invariant
                i <= windows@.len(),
                effects@ == e0 + watch_effects(pid, windows@.take(i as int)),
            decreases windows@.len() - i,
        {
            effects.push(Effect::QueueWindowCreated(windows[i], pid));
            proof {
                assert(windows@.take(i + 1) =~= windows@.take(i as int).push(windows@[i as int]));
                assert(watch_effects(pid, windows@.take(i + 1)) =~= watch_effects(pid, windows@.take(i as int)).push(
                    Effect::QueueWindowCreated(windows@[i as int], pid),
                ));
            }
            i = i + 1;
        }
        assert(windows@.take(i as int) =~= windows@);
    }
}


/// The workspace set every display gets, as names and app lists: the
/// configured one, or the built-in one when none is configured.
pub open spec fn expected_entries(settings: Settings) -> Seq<(Seq<char>, Seq<Seq<char>>)> {
    if settings.workspaces@.len() == 0 {
        crate::settings::default_workspaces_spec()
    } else {
        entries_view(settings.workspaces@)
    }
}

/// The shown indices after start-up: each display shows the first
/// workspace of its block; with no block at all, a single workspace on the
/// primary display is shown there.
pub open spec fn initial_active(displays: Seq<DisplayInfo>, n: nat, primary: u32) -> Map<u32, usize> {
    if displays.len() * n > 0 {
        first_indices(displays, n)
    } else {
        first_indices(displays, n).insert(primary, 0)
    }
}

/// `sm` is the start-up state for these settings and displays: `es` is the
/// workspace set given to each display and `laid` the workspaces before the
/// bar strip was reserved in them.
pub open spec fn started_as(
    sm: StateManager,
    settings: Settings,
    displays: Seq<DisplayInfo>,
    primary: u32,
    es: Seq<WorkspaceEntry>,
    laid: Seq<Workspace>,
) -> bool {
    &&& entries_view(es) =~~= expected_entries(settings)
    &&& sm.spec_active() == initial_active(displays, es.len(), primary)
    &&& if displays.len() * es.len() > 0 {
        laid_out(laid, displays, es)
    } else {
        laid.len() == 1 && is_fresh(laid[0], "ws-1"@, primary, (0, 0), (1920, 1080))
    }
    &&& sm.spec_workspaces().len() == laid.len()
    &&& forall|i: int|
        0 <= i < laid.len() ==> reserved_as(
            #[trigger] laid[i],
            sm.spec_workspaces()[i],
            reserve_for(sm.spec_bar(), laid[i], primary, displays),
        )
}

impl StateManager {
    /// Build the state at start-up. Each display of `displays` gets the
    /// workspace set of `settings` (or the built-in one) and shows its first
    /// workspace; with no display or no workspace set, a single workspace
    /// "ws-1" on `primary` takes their place. The windows of the running
    /// apps in `apps` are recorded and queued as created windows; `bar_pid`
    /// (the spawned bar, whose presence gates the bar) and `excluded_pids`
    /// are never tiled. The effects hide every workspace no display shows,
    /// reserve the bar strip, tell the bar whether to show, and publish.
    #[verifier::rlimit(40)]
    pub fn new(
        displays: &[DisplayInfo],
        primary: u32,
        settings: Settings,
        frontmost: Option<i32>,
        apps: &Vec<(i32, Vec<WindowId>)>,
        bar_pid: Option<i32>,
        excluded_pids: Vec<i32>,
        now: u64,
    ) -> (r: (StateManager, Vec<Effect>))
        ensures
            r.0.wf(),
            exists|es: Seq<WorkspaceEntry>, laid: Seq<Workspace>|
                #[trigger] started_as(r.0, settings, displays@, primary, es, laid),
            r.0.spec_gaps() == (
                if settings.gap_outer < 0 {
                    0
                } else {
                    settings.gap_outer
                },
                if settings.gap_inner < 0 {
                    0
                } else {
                    settings.gap_inner
                },
            ),
            r.0.spec_max_tiles() == if settings.max_tiles < 1 {
                1
            } else {
                settings.max_tiles
            },
            r.0.spec_frontmost() == frontmost,
            r.0.spec_window_pids() == pids_of_apps(apps@),
            r.0.spec_pid_windows() == lists_of_apps(apps@),
            r.0.spec_hidden() == Map::<WindowId, usize>::empty(),
            !r.0.spec_shutdown(),
            r.0.spec_excluded() == (match bar_pid {
                Some(p) => seq![p],
                None => Seq::empty(),
            }) + excluded_pids@,
            r.0.spec_bar().spec_config() == settings.bar,
            r.0.spec_bar().spec_spawned() == bar_pid is Some,
            r.0.spec_bar_visible() == (settings.bar.visible && bar_pid is Some),
            r.1@.len() >= watch_all_effects(apps@).len() + 2,
            r.1@.take(watch_all_effects(apps@).len() as int) == watch_all_effects(apps@),
            r.1@[r.1@.len() - 2] == Effect::SendBar(
                if r.0.spec_bar_visible() {
                    BarSignal::Show
                } else {
                    BarSignal::Hide
                },
            ),
            r.1@[r.1@.len() - 1] == Effect::PublishBarState,
            exists|h: Seq<Effect>|
                #[trigger] hides_in_order(
                    h,
                    r.0.spec_workspaces(),
                    unshown_indices(r.0.spec_active(), r.0.spec_workspaces().len()),
                ) && r.1@ == watch_all_effects(apps@) + h + layout_all(r.0.spec_workspaces().len()) + seq![
                    Effect::SendBar(
                        if r.0.spec_bar_visible() {
                            BarSignal::Show
                        } else {
                            BarSignal::Hide
                        },
                    ),
                    Effect::PublishBarState,
                ],
    {
        let Settings {
            gap_outer,
            gap_inner,
            max_tiles,
            restricted_apps,
            bar: bar_config,
            menubar: _,
            workspaces: configured,
        } = settings;
        let entries = if configured.len() == 0 {
            crate::settings::default_workspaces()
        } else {
            configured
        };
        let ghost es = entries@;
        assert(es.len() > 0) by {
            assert(entries_view(es).len() == es.len());
        }
        let mut display_set = DisplaySet::new(entries);
        let mut workspaces: Vec<Workspace> = Vec::new();
        display_set.init_workspaces(&mut workspaces, displays);
        let ghost laid0 = workspaces@;
        let wl = workspaces.len();
        proof {
            crate::state::display::lemma_laid_out_len(workspaces@, displays@, es);
            crate::state::display::lemma_first_indices_bound(displays@, es.len());
        }
        assert(display_set.spec_active() == first_indices(displays@, es.len()));
        if wl == 0 {
            assert(displays@.len() * es.len() == 0);
            assert(es.len() > 0 ==> displays@.len() == 0) by (nonlinear_arith)
                requires
                    displays@.len() * es.len() == 0,
            ;
            workspaces.push(Workspace::new(String::from_str("ws-1"), primary, (0, 0), (1920, 1080)));
            display_set.active_mut().insert(primary, 0);
            proof {
                reveal_strlit("ws-1");
                assert(displays@.len() == 0 ==> first_indices(displays@, es.len()) == Map::<u32, usize>::empty());
                assert(active_in_range(display_set.spec_active(), 1));
            }
        } else {
            assert(active_in_range(display_set.spec_active(), wl as nat));
        }
        let ghost laid = workspaces@;
        assert(display_set.spec_active() == initial_active(displays@, es.len(), primary));
        assert(displays@.len() * es.len() > 0 ==> laid_out(laid, displays@, es));
        let mut excluded: Vec<i32> = Vec::new();
        match bar_pid {
            Some(p) => excluded.push(p),
            None => {},
        }
        let mut rest = excluded_pids;
        excluded.append(&mut rest);
        let mut sm = StateManager {
            workspaces,
            displays: display_set,
            frontmost_pid: frontmost,
            pid_to_windows: HashMap::new(),
            window_pids: HashMap::new(),
            hidden: HiddenTracker::with_last_reconcile(now),
            gap_outer: if gap_outer < 0 {
                0
            } else {
                gap_outer
            },
            gap_inner: if gap_inner < 0 {
                0
            } else {
                gap_inner
            },
            router: Router::new(max_tiles),
            restricted_apps,
            bar: BarReserve::new(bar_config, bar_pid.is_some()),
            excluded_pids: excluded,
            drag: DragState::new(),
            shutdown_requested: false,
            switch_debounce_until: None,
        };
        assert(sm.spec_window_pids() =~= Map::<WindowId, i32>::empty());
        assert(sm.spec_pid_windows() =~= Map::<i32, Seq<WindowId>>::empty());
        let ghost sm0 = sm;
        let mut effects: Vec<Effect> = Vec::new();
        let mut a: usize = 0;
        assert(apps@.take(0) =~= Seq::<(i32, Vec<WindowId>)>::empty());
        while a < apps.len()
            invariant
                sm.wf(),
                a <= apps@.len(),
                sm.spec_workspaces() == laid,
                sm.spec_window_pids() == pids_of_apps(apps@.take(a as int)),
                sm.spec_pid_windows() == lists_of_apps(apps@.take(a as int)),
                effects@ == watch_all_effects(apps@.take(a as int)),
                Self::same_but_apps(sm, sm0),
                sm.spec_bar() == sm0.spec_bar(),
            decreases apps@.len() - a,
        {
            sm.watch_app(apps[a].0, &apps[a].1, &mut effects);
            proof {
                let t = apps@.take(a + 1);
                assert(t.drop_last() =~= apps@.take(a as int));
            }
            a = a + 1;
        }
        assert(apps@.take(a as int) =~= apps@);
        let n = sm.workspaces.len();
        let ghost sm1 = sm;
        let ghost watched = effects@;
        let mut i: usize = 0;
        assert(effects@.skip(watched.len() as int) =~= Seq::<Effect>::empty());
        assert(hides_in_order(Seq::empty(), sm1.spec_workspaces(), unshown_indices(sm1.spec_active(), 0)));
        while i < n
            invariant
                sm == sm1,
                sm.wf(),
                n == sm.spec_workspaces().len(),
                i <= n,
                watched == watch_all_effects(apps@),
                effects@.len() >= watched.len(),
                effects@.take(watched.len() as int) == watched,
                hides_in_order(
                    effects@.skip(watched.len() as int),
                    sm1.spec_workspaces(),
                    unshown_indices(sm1.spec_active(), i as nat),
                ),
            decreases n - i,
        {
            let ghost e0 = effects@;
            if !map_has_value(sm.displays.active(), i) {
                let e = sm.hide_workspace(i);
                effects.push(e);
                assert(effects@.skip(watched.len() as int) =~= e0.skip(watched.len() as int).push(e));
            }
            assert(effects@.take(watched.len() as int) =~= watched);
            i = i + 1;
        }
        let ghost hidden_part = effects@.skip(watched.len() as int);
        assert(effects@ =~= watched + hidden_part);
        let ghost e1 = effects@;
        sm.reserve_bar_strip(primary, displays, &mut effects);
        let signal = if sm.bar.is_visible() {
            BarSignal::Show
        } else {
            BarSignal::Hide
        };
        effects.push(Effect::SendBar(signal));
        effects.push(Effect::PublishBarState);
        proof {
            assert(entries_view(es) =~~= expected_entries(settings));
            assert(sm.spec_active() == initial_active(displays@, es.len(), primary));
            assert(sm.spec_workspaces().len() == laid.len());
            assert(forall|i: int|
                0 <= i < laid.len() ==> reserved_as(
                    #[trigger] laid[i],
                    sm.spec_workspaces()[i],
                    reserve_for(sm.spec_bar(), laid[i], primary, displays@),
                ));
            assert(started_as(sm, settings, displays@, primary, es, laid));
            assert forall|k: int| 0 <= k < hidden_part.len() implies hides(
                #[trigger] hidden_part[k],
                sm.spec_workspaces()[unshown_indices(sm.spec_active(), n as nat)[k] as int],
            ) by {
                let u = unshown_indices(sm.spec_active(), n as nat)[k] as int;
                lemma_unshown_below(sm.spec_active(), n as nat, k);
                assert(hides(hidden_part[k], sm1.spec_workspaces()[u]));
                assert(sm.spec_workspaces()[u].nodes() == sm1.spec_workspaces()[u].nodes());
            }
            assert(hides_in_order(hidden_part, sm.spec_workspaces(), unshown_indices(sm.spec_active(), n as nat)));
            assert(effects@ =~= watched + hidden_part + layout_all(n as nat) + seq![
                Effect::SendBar(signal),
                Effect::PublishBarState,
            ]);
        }
        (sm, effects)
    }
}


/// Where a window meant for workspace `preferred` lands: there when it has
/// room for another window, else the next workspace with room on the same
/// display, else nowhere.
pub open spec fn landing(ws: Seq<Workspace>, preferred: int, max: nat) -> Option<usize> {
    if ws[preferred].window_seq().len() < max {
        Some(preferred as usize)
    } else {
        capacity_search(ws, preferred, max, 1)
    }
}

/// Workspace `t` of `after` is workspace `t` of `before` with window `w`
/// appended (and its layout mode set to `monocle`); the others are unchanged.
pub open spec fn joined(before: Seq<Workspace>, after: Seq<Workspace>, t: int, w: WindowId, monocle: bool) -> bool {
    &&& only_changed(before, after, t)
    &&& after[t].window_seq() == before[t].window_seq().push(w)
    &&& has_window(after[t], w)
    &&& after[t].spec_monocle() == monocle
    &&& after[t].spec_name() == before[t].spec_name()
    &&& after[t].spec_monitor_id() == before[t].spec_monitor_id()
    &&& after[t].spec_monitor_origin() == before[t].spec_monitor_origin()
    &&& after[t].spec_monitor_size() == before[t].spec_monitor_size()
    &&& after[t].spec_reserved() == before[t].spec_reserved()
    &&& before[t].spec_next_id() < after[t].spec_next_id() <= before[t].spec_next_id() + 2
    &&& after[t].spec_focused() matches Some(f) && crate::shape::holds(after[t].nodes(), f, w)
}

/// What placing window `w` with preference `preferred` does to the
/// workspaces and returns: a window already in `preferred` stays; otherwise
/// it joins the workspace it lands in (turned monocle when its app is
/// `restricted`), unless none has room or that one's node ids are spent.
pub open spec fn placed(
    before: Seq<Workspace>,
    after: Seq<Workspace>,
    w: WindowId,
    preferred: int,
    max: nat,
    restricted: bool,
    r: Option<usize>,
) -> bool {
    if has_window(before[preferred], w) {
        r == Some(preferred as usize) && after == before
    } else {
        match landing(before, preferred, max) {
            Some(t) => if before[t as int].can_allocate() {
                r == Some(t) && joined(before, after, t as int, w, before[t as int].spec_monocle() || restricted)
            } else {
                r is None && after == before
            },
            None => r is None && after == before,
        }
    }
}

/// The workspace an app's new window is routed to: the first workspace on
/// display of workspace `a` named like the configured entry listing the app.
pub open spec fn route_for(
    ws: Seq<Workspace>,
    a: int,
    entries: Seq<WorkspaceEntry>,
    bundle: Option<Seq<char>>,
    name: Option<Seq<char>>,
) -> Option<usize> {
    match entry_for(entries, bundle, name) {
        None => None,
        Some(e) => match first_named(ws, entries[e].name@, ws[a].spec_monitor_id()) {
            Some(i) => Some(i as usize),
            None => None,
        },
    }
}

/// Whether `bundle` is one of the restricted bundle ids (compared exactly).
pub open spec fn is_restricted_spec(restricted: Seq<Seq<char>>, bundle: Option<Seq<char>>) -> bool {
    match bundle {
        Some(b) => restricted.contains(b),
        None => false,
    }
}

impl StateManager {
    pub closed spec fn spec_restricted(&self) -> Seq<Seq<char>> {
        self.restricted_apps@.map_values(|a: String| a@)
    }

    pub closed spec fn spec_entries(&self) -> Seq<WorkspaceEntry> {
        self.displays.spec_entries()
    }

    /// Whether display of workspace `idx` shows it.
    pub open spec fn shows(&self, idx: int) -> bool {
        shown_in(self.spec_workspaces(), self.spec_active(), idx)
    }

    /// Whether the app with this bundle id is one whose workspaces turn monocle.
    fn is_restricted(&self, bundle: &Option<String>) -> (r: bool)
        ensures
            r == is_restricted_spec(self.spec_restricted(), opt_view(*bundle)),
    {
        if bundle.is_none() {
            return false;
        }
        let b = bundle.as_ref().unwrap();
        assert(opt_view(*bundle) == Some(b@));
        let mut i: usize = 0;
        while i < self.restricted_apps.len()
            invariant
                i <= self.restricted_apps@.len(),
                forall|j: int| 0 <= j < i ==> self.restricted_apps@[j]@ != b@,
                opt_view(*bundle) == Some(b@),
            decreases self.restricted_apps@.len() - i,
        {
            if crate::text::str_eq(self.restricted_apps[i].as_str(), b.as_str()) {
                assert(self.spec_restricted().len() == self.restricted_apps@.len());
                assert(self.spec_restricted()[i as int] == b@);
                assert(self.spec_restricted().contains(b@));
                return true;
            }
            i = i + 1;
        }
        proof {
            if self.spec_restricted().contains(b@) {
                let j = choose|j: int| 0 <= j < self.spec_restricted().len() && self.spec_restricted()[j] == b@;
                assert(self.restricted_apps@[j]@ == b@);
            }
        }
        false
    }

    /// The configured workspace for the app, on the active display.
    fn routed_workspace_idx(&self, active: usize, bundle: &Option<String>, app_name: &Option<String>) -> (r: Option<
        usize,
    >)
        requires
            self.wf(),
            active < self.spec_workspaces().len(),
        ensures
            r == route_for(self.spec_workspaces(), active as int, self.spec_entries(), opt_view(*bundle), opt_view(*app_name)),
            r matches Some(i) ==> i < self.spec_workspaces().len(),
    {
        self.router.routed_workspace_idx(&self.workspaces, active, bundle, app_name, self.displays.entries())
    }

    /// Put window `w` into workspace `preferred`, or the next one with room
    /// on its display; lay it out when it is shown. `restricted` turns the
    /// receiving workspace monocle.
    fn add_window_to_workspace(&mut self, w: WindowId, restricted: bool, preferred: usize, effects: &mut Vec<Effect>) -> (r:
        Option<usize>)
        requires
            old(self).wf(),
            preferred < old(self).spec_workspaces().len(),
        ensures
            final(self).wf(),
            Self::same_tracking(*final(self), *old(self)),
            final(self).spec_bar() == old(self).spec_bar(),
            final(self).spec_entries() == old(self).spec_entries(),
            final(self).spec_restricted() == old(self).spec_restricted(),
            final(self).spec_debounce() == old(self).spec_debounce(),
            placed(
                old(self).spec_workspaces(),
                final(self).spec_workspaces(),
                w,
                preferred as int,
                old(self).spec_max_tiles() as nat,
                restricted,
                r,
            ),
            final(effects)@ == old(effects)@ + (if r is Some && !has_window(
                old(self).spec_workspaces()[preferred as int],
                w,
            ) && old(self).shows(r->0 as int) {
                seq![Effect::ApplyLayout(r->0)]
            } else {
                Seq::empty()
            }),
    {
        assert(self.workspaces@[preferred as int].wf());
        if self.workspaces[preferred].find_window(w).is_some() {
            return Some(preferred);
        }
        let n = self.workspaces.len();
        let target = if self.workspaces[preferred].window_count() >= self.router.max_tiles() {
            match self.router.find_next_with_capacity(&self.workspaces, preferred) {
                Some(idx) => {
                    proof {
                        assert(self.workspaces@.len() == n);
                        crate::state::router::law_capacity_pick_has_room(
                            self.workspaces@,
                            preferred as int,
                            self.router.spec_max_tiles() as nat,
                            1,
                        );
                    }
                    idx
                },
                None => return None,
            }
        } else {
            preferred
        };
        assert(self.workspaces@[target as int].wf());
        if !self.workspaces[target].can_add_window() {
            return None;
        }
        let ghost w0 = self.workspaces@;
        let mut ws = self.workspaces.remove(target);
        if restricted {
            ws.set_monocle(true);
        }
        ws.add_window(w, None);
        self.workspaces.insert(target, ws);
        proof {
            assert(self.workspaces@ =~= w0.update(target as int, self.workspaces@[target as int]));
            crate::state::lemma_all_wf_update(w0, target as int, self.workspaces@[target as int]);
            crate::workspace::law_added_window_is_held(
                self.workspaces@[target as int],
                self.workspaces@[target as int].spec_focused()->0,
                w,
            );
        }
        if self.is_workspace_visible(target) {
            effects.push(Effect::ApplyLayout(target));
        }
        Some(target)
    }
}


/// `s` without the occurrences of `w`.
pub open spec fn drop_window(s: Seq<WindowId>, w: WindowId) -> Seq<WindowId>
    decreases s.len(),
{
    if s.len() == 0 {
        s
    } else {
        let pre = drop_window(s.drop_last(), w);
        if s.last() == w {
            pre
        } else {
            pre.push(s.last())
        }
    }
}

/// The lists without `w`; a list left empty goes.
pub open spec fn lists_without(lists: Map<i32, Seq<WindowId>>, w: WindowId) -> Map<i32, Seq<WindowId>> {
    Map::new(|p: i32| lists.contains_key(p) && drop_window(lists[p], w).len() > 0, |p: i32| drop_window(lists[p], w))
}

/// The lists of a map of vectors.
pub open spec fn lists_view(m: Map<i32, Vec<WindowId>>) -> Map<i32, Seq<WindowId>> {
    Map::new(|p: i32| m.contains_key(p), |p: i32| m[p]@)
}

proof fn lemma_drop_window_twice(s: Seq<WindowId>, w: WindowId)
    ensures
        drop_window(drop_window(s, w), w) == drop_window(s, w),
    decreases s.len(),
{
    if s.len() > 0 {
        lemma_drop_window_twice(s.drop_last(), w);
        let pre = drop_window(s.drop_last(), w);
        if s.last() != w {
            assert(pre.push(s.last()).drop_last() =~= pre);
        }
    }
}

/// `v` without the occurrences of `w`.
fn without(v: &Vec<WindowId>, w: WindowId) -> (r: Vec<WindowId>)
    ensures
        r@ == drop_window(v@, w),
{
    let mut out: Vec<WindowId> = Vec::new();
    let mut i: usize = 0;
    while i < v.len()
        invariant
            i <= v@.len(),
            out@ == drop_window(v@.take(i as int), w),
        decreases v@.len() - i,
    {
        assert(v@.take(i + 1).drop_last() =~= v@.take(i as int));
        if v[i] != w {
            out.push(v[i]);
        }
        i = i + 1;
    }
    assert(v@.take(i as int) =~= v@);
    out
}

/// Drop `w` from every list of `m`, and the lists left empty.
fn drop_from_lists(m: &mut HashMap<i32, Vec<WindowId>>, w: WindowId)
    ensures
        lists_view(final(m)@) == lists_without(lists_view(old(m)@), w),
{
    let ghost m0 = m@;
    let ghost ks = vstd::std_specs::hash::spec_keys_iter(&*m).remaining();
    assert(ks.unref().to_set() == m0.dom());
    let mut keys: Vec<i32> = Vec::new();
    let ghost mut idx: int = 0;
    for k in it: m.keys()
        invariant
            m@ == m0,
            it.seq() == ks,
            idx == it.index(),
            keys@.len() == idx,
            forall|j: int| 0 <= j < idx ==> keys@[j] == *ks[j],
    {
        assert(k == ks[idx]);
        keys.push(*k);
        proof {
            idx = idx + 1;
        }
    }
    assert forall|p: i32| m0.contains_key(p) implies keys@.contains(p) by {
        assert(ks.unref().to_set().contains(p));
        let j = choose|j: int| 0 <= j < ks.unref().len() && ks.unref()[j] == p;
        assert(ks.unref()[j] == *ks[j]);
        assert(keys@[j] == p);
    }
    let mut i: usize = 0;
    while i < keys.len()
        invariant
            i <= keys@.len(),
            forall|p: i32| m0.contains_key(p) ==> keys@.contains(p),
            forall|p: i32| m@.contains_key(p) ==> m0.contains_key(p),
            forall|p: i32|
                #![trigger m0.contains_key(p)]
                m0.contains_key(p) && keys@.take(i as int).contains(p) ==> (m@.contains_key(p) == (drop_window(
                    m0[p]@,
                    w,
                ).len() > 0) && (m@.contains_key(p) ==> m@[p]@ == drop_window(m0[p]@, w))),
            forall|p: i32|
                #![trigger m0.contains_key(p)]
                m0.contains_key(p) && !keys@.take(i as int).contains(p) ==> m@.contains_key(p) && m@[p] == m0[p],
        decreases keys@.len() - i,
    {
        let k = keys[i];
        let ghost before = m@;
        let ghost done = keys@.take(i as int);
        let ghost next = keys@.take(i + 1);
        assert(next =~= done.push(k));
        match m.remove(&k) {
            Some(list) => {
                let kept = without(&list, w);
                proof {
                    if done.contains(k) {
                        lemma_drop_window_twice(m0[k]@, w);
                    }
                }
                if kept.len() > 0 {
                    m.insert(k, kept);
                }
            },
            None => {},
        }
        proof {
            assert forall|p: i32| next.contains(p) == (done.contains(p) || p == k) by {
                if next.contains(p) && p != k {
                    let j = choose|j: int| 0 <= j < next.len() && next[j] == p;
                    assert(done[j] == p);
                }
                if done.contains(p) {
                    let j = choose|j: int| 0 <= j < done.len() && done[j] == p;
                    assert(next[j] == p);
                }
                if p == k {
                    assert(next[i as int] == p);
                }
            }
        }
        i = i + 1;
    }
    assert(keys@.take(i as int) =~= keys@);
    assert(lists_view(m@) =~= lists_without(lists_view(m0), w));
}


/// The workspace a new window of an app prefers, given active workspace
/// `a`: the one it is routed to, else `a`.
pub open spec fn preferred_for(
    ws: Seq<Workspace>,
    a: int,
    entries: Seq<WorkspaceEntry>,
    bundle: Option<Seq<char>>,
    name: Option<Seq<char>>,
) -> int {
    match route_for(ws, a, entries, bundle, name) {
        Some(i) => i as int,
        None => a,
    }
}

impl StateManager {
    /// Everything but the workspaces and the hidden windows is unchanged.
    pub open spec fn same_frame(a: StateManager, b: StateManager) -> bool {
        &&& a.spec_active() == b.spec_active()
        &&& a.spec_window_pids() == b.spec_window_pids()
        &&& a.spec_pid_windows() == b.spec_pid_windows()
        &&& a.spec_excluded() == b.spec_excluded()
        &&& a.spec_frontmost() == b.spec_frontmost()
        &&& a.spec_gaps() == b.spec_gaps()
        &&& a.spec_shutdown() == b.spec_shutdown()
        &&& a.spec_max_tiles() == b.spec_max_tiles()
        &&& a.spec_bar() == b.spec_bar()
        &&& a.spec_entries() == b.spec_entries()
        &&& a.spec_restricted() == b.spec_restricted()
        &&& a.spec_debounce() == b.spec_debounce()
    }

    /// A window appeared. Windows of excluded apps are ignored. The window
    /// is recorded for app `pid` (unless already known) and forgotten as
    /// hidden; unless some workspace already holds it, it goes to the
    /// workspace its app is routed to (by `bundle` id or `app_name`), else
    /// to the active one, or the next with room there.
    #[verifier::rlimit(40)]
    pub fn on_window_created(
        &mut self,
        w: WindowId,
        pid: i32,
        bundle: &Option<String>,
        app_name: &Option<String>,
    ) -> (r: Vec<Effect>)
        requires
            old(self).wf(),
        ensures
            final(self).wf(),
            old(self).spec_excluded().contains(pid) ==> *final(self) == *old(self) && r@.len() == 0,
            !old(self).spec_excluded().contains(pid) ==> {
                let known = old(self).spec_window_pids().contains_key(w);
                &&& final(self).spec_window_pids() == if known {
                    old(self).spec_window_pids()
                } else {
                    old(self).spec_window_pids().insert(w, pid)
                }
                &&& final(self).spec_pid_windows() == if known {
                    old(self).spec_pid_windows()
                } else {
                    lists_with(old(self).spec_pid_windows(), pid, seq![w])
                }
                &&& final(self).spec_hidden() == old(self).spec_hidden().remove(w)
                &&& final(self).spec_active() == old(self).spec_active()
                &&& workspace_of(old(self).spec_workspaces(), w) is Some ==> final(self).spec_workspaces()
                    == old(self).spec_workspaces() && r@.len() == 0
                &&& workspace_of(old(self).spec_workspaces(), w) is None ==> exists|a: int|
                    #[trigger] choice_ok(
                        old(self).spec_workspaces(),
                        final(self).spec_pid_windows(),
                        old(self).spec_frontmost(),
                        old(self).spec_active(),
                        a,
                    ) && r@.len() >= 1 && r@.last() == Effect::PublishBarState && exists|res: Option<usize>|
                        #[trigger] placed(
                            old(self).spec_workspaces(),
                            final(self).spec_workspaces(),
                            w,
                            preferred_for(
                                old(self).spec_workspaces(),
                                a,
                                old(self).spec_entries(),
                                opt_view(*bundle),
                                opt_view(*app_name),
                            ),
                            old(self).spec_max_tiles() as nat,
                            is_restricted_spec(old(self).spec_restricted(), opt_view(*bundle)),
                            res,
                        )
            },
    {
        let mut effects: Vec<Effect> = Vec::new();
        let mut k: usize = 0;
        while k < self.excluded_pids.len()
            invariant
                *self == *old(self),
                self.wf(),
                effects@.len() == 0,
                k <= self.excluded_pids@.len(),
                forall|j: int| 0 <= j < k ==> self.excluded_pids@[j] != pid,
            decreases self.excluded_pids@.len() - k,
        {
            if self.excluded_pids[k] == pid {
                assert(self.spec_excluded()[k as int] == pid);
                return effects;
            }
            k = k + 1;
        }
        assert(!self.spec_excluded().contains(pid));
        if !self.window_pids.contains_key(&w) {
            let one = vec![w];
            let ghost p0 = self.spec_window_pids();
            self.record_windows(pid, &one);
            proof {
                assert(one@ =~= seq![w]);
                assert(seq![w][0] == w);
                assert forall|x: WindowId| seq![w].contains(x) == (x == w) by {
                    if seq![w].contains(x) {
                        let j = choose|j: int| 0 <= j < 1 && seq![w][j] == x;
                    }
                }
                assert(pids_with(p0, pid, seq![w]) =~= p0.insert(w, pid));
            }
        }
        let ghost s1 = *self;
        self.hidden.remove(w);
        assert(Self::same_frame(*self, s1));
        if find_workspace_for_window(&self.workspaces, w).is_some() {
            return effects;
        }
        let active = self.active_workspace_idx();
        let preferred = match self.routed_workspace_idx(active, bundle, app_name) {
            Some(i) => i,
            None => active,
        };
        let restricted = self.is_restricted(bundle);
        let ghost before = *self;
        let res = self.add_window_to_workspace(w, restricted, preferred, &mut effects);
        effects.push(Effect::PublishBarState);
        proof {
            assert(before.spec_workspaces() == old(self).spec_workspaces());
            assert(choice_ok(
                old(self).spec_workspaces(),
                self.spec_pid_windows(),
                old(self).spec_frontmost(),
                old(self).spec_active(),
                active as int,
            ));
            assert(preferred as int == preferred_for(
                old(self).spec_workspaces(),
                active as int,
                old(self).spec_entries(),
                opt_view(*bundle),
                opt_view(*app_name),
            ));
            assert(placed(
                old(self).spec_workspaces(),
                self.spec_workspaces(),
                w,
                preferred as int,
                old(self).spec_max_tiles() as nat,
                is_restricted_spec(old(self).spec_restricted(), opt_view(*bundle)),
                res,
            ));
        }
        effects
    }
}


impl StateManager {
    /// A window went away: it leaves the first workspace holding it (laid
    /// out again when shown), the window and app tracking and the hidden
    /// windows.
    pub fn on_window_destroyed(&mut self, w: WindowId) -> (r: Vec<Effect>)
        requires
            old(self).wf(),
        ensures
            final(self).wf(),
            match workspace_of(old(self).spec_workspaces(), w) {
                Some(i) => removed_at(old(self).spec_workspaces(), final(self).spec_workspaces(), i, w) && r@ == (
                if old(self).shows(i) {
                    seq![Effect::ApplyLayout(i as usize)]
                } else {
                    Seq::empty()
                }).push(Effect::PublishBarState),
                None => final(self).spec_workspaces() == old(self).spec_workspaces() && r@ == seq![
                    Effect::PublishBarState,
                ],
            },
            final(self).spec_window_pids() == old(self).spec_window_pids().remove(w),
            final(self).spec_pid_windows() == lists_without(old(self).spec_pid_windows(), w),
            final(self).spec_hidden() == old(self).spec_hidden().remove(w),
            final(self).spec_active() == old(self).spec_active(),
            final(self).spec_frontmost() == old(self).spec_frontmost(),
    {
        let mut effects: Vec<Effect> = Vec::new();
        match find_workspace_for_window(&self.workspaces, w) {
            Some(i) => {
                let visible = self.is_workspace_visible(i);
                proof {
                    crate::state::lemma_workspace_of_facts(self.workspaces@, w);
                }
                remove_window_at(&mut self.workspaces, i, w);
                if visible {
                    effects.push(Effect::ApplyLayout(i));
                }
                proof {
                    assert(active_in_range(self.displays.spec_active(), self.workspaces@.len()));
                }
            },
            None => {},
        }
        self.window_pids.remove(&w);
        self.hidden.remove(w);
        drop_from_lists(&mut self.pid_to_windows, w);
        effects.push(Effect::PublishBarState);
        effects
    }

    /// A window was minimized or its app hidden: it leaves the first
    /// workspace holding it, remembered as hidden from there, but stays
    /// tracked so that it can come back.
    pub fn on_window_hidden(&mut self, w: WindowId) -> (r: Vec<Effect>)
        requires
            old(self).wf(),
        ensures
            final(self).wf(),
            Self::same_frame(*final(self), *old(self)),
            hidden_outcome(*old(self), *final(self), w, r@),
    {
        let mut effects: Vec<Effect> = Vec::new();
        let ghost s0 = *self;
        let n = self.workspaces.len();
        proof {
            crate::state::lemma_workspace_of_facts(s0.workspaces@, w);
        }
        let hid = self.hidden.hide_window(w, &mut self.workspaces);
        assert(match workspace_of(s0.workspaces@, w) {
            Some(i) => hid == Some(i as usize),
            None => hid is None,
        });
        match hid {
            Some(idx) => {
                proof {
                    crate::state::lemma_workspace_of_facts(s0.workspaces@, w);
                    assert(active_in_range(self.displays.spec_active(), self.workspaces@.len()));
                    assert(self.workspaces@[idx as int].spec_monitor_id() == s0.workspaces@[idx as int].spec_monitor_id());
                }
                let vis = self.is_workspace_visible(idx);
                assert(vis == s0.shows(idx as int));
                if vis {
                    effects.push(Effect::ApplyLayout(idx));
                }
                effects.push(Effect::PublishBarState);
                assert(workspace_of(s0.spec_workspaces(), w) == Some(idx as int));
            },
            None => {},
        }
        effects
    }
}


/// The workspace a window shown again prefers: the one it was hidden
/// from, when that index is still valid, else as for a new window.
pub open spec fn return_to(
    ws: Seq<Workspace>,
    hidden: Map<WindowId, usize>,
    w: WindowId,
    a: int,
    entries: Seq<WorkspaceEntry>,
    bundle: Option<Seq<char>>,
    name: Option<Seq<char>>,
) -> int {
    if hidden.contains_key(w) && hidden[w] < ws.len() {
        hidden[w] as int
    } else {
        preferred_for(ws, a, entries, bundle, name)
    }
}

impl StateManager {
    pub closed spec fn spec_drag(&self) -> DragView {
        self.drag@
    }

    /// A hidden window became visible again. A tracked window that no
    /// workspace holds goes back to the workspace it was hidden from (when
    /// that index is still valid), else where its app is routed, else to
    /// the active workspace, or the next with room there. `bundle` and
    /// `app_name` describe its app.
    #[verifier::rlimit(40)]
    pub fn on_window_shown(&mut self, w: WindowId, bundle: &Option<String>, app_name: &Option<String>) -> (r: Vec<
        Effect,
    >)
        requires
            old(self).wf(),
        ensures
            final(self).wf(),
            Self::same_frame(*final(self), *old(self)),
            shown_outcome(*old(self), *final(self), w, opt_view(*bundle), opt_view(*app_name), r@),
    {
        let mut effects: Vec<Effect> = Vec::new();
        if find_workspace_for_window(&self.workspaces, w).is_some() {
            return effects;
        }
        if !self.window_pids.contains_key(&w) {
            return effects;
        }
        let active = self.active_workspace_idx();
        let ghost s0 = *self;
        let remembered = self.hidden.take_hidden(w);
        assert(Self::same_frame(*self, s0));
        let preferred = match remembered {
            Some(i) => if i < self.workspaces.len() {
                i
            } else {
                match self.routed_workspace_idx(active, bundle, app_name) {
                    Some(j) => j,
                    None => active,
                }
            },
            None => match self.routed_workspace_idx(active, bundle, app_name) {
                Some(j) => j,
                None => active,
            },
        };
        let restricted = self.is_restricted(bundle);
        let res = self.add_window_to_workspace(w, restricted, preferred, &mut effects);
        if res.is_some() {
            effects.push(Effect::PublishBarState);
        }
        proof {
            assert(placed(
                old(self).spec_workspaces(),
                self.spec_workspaces(),
                w,
                preferred as int,
                old(self).spec_max_tiles() as nat,
                is_restricted_spec(old(self).spec_restricted(), opt_view(*bundle)),
                res,
            ));
            assert(old(self).active_choice(active as int));
            assert(preferred as int == return_to(
                old(self).spec_workspaces(),
                old(self).spec_hidden(),
                w,
                active as int,
                old(self).spec_entries(),
                opt_view(*bundle),
                opt_view(*app_name),
            ));
            crate::state::lemma_workspace_of_facts(old(self).spec_workspaces(), w);
            assert(!has_window(old(self).spec_workspaces()[preferred as int], w));
            assert(effects@ == match res {
                Some(t) => (if old(self).shows(t as int) {
                    seq![Effect::ApplyLayout(t)]
                } else {
                    Seq::empty()
                }).push(Effect::PublishBarState),
                None => Seq::<Effect>::empty(),
            });
        }
        effects
    }

    /// A window got focus. The first workspace holding it focuses it; unless
    /// an explicit workspace switch happened less than the debounce time
    /// before `now` (milliseconds), its display then shows that workspace,
    /// and the workspace shown there before is hidden.
    pub fn on_window_focused(&mut self, w: WindowId, now: u64) -> (r: Vec<Effect>)
        requires
            old(self).wf(),
        ensures
            final(self).wf(),
            final(self).spec_window_pids() == old(self).spec_window_pids(),
            final(self).spec_pid_windows() == old(self).spec_pid_windows(),
            final(self).spec_hidden() == old(self).spec_hidden(),
            final(self).spec_frontmost() == old(self).spec_frontmost(),
            workspace_of(old(self).spec_workspaces(), w) is None ==> *final(self) == *old(self),
            focus_outcome(*old(self), *final(self), w, now, r@),
    {
        let mut effects: Vec<Effect> = Vec::new();
        let i = match find_workspace_for_window(&self.workspaces, w) {
            Some(i) => i,
            None => return effects,
        };
        proof {
            crate::state::lemma_workspace_of_facts(self.workspaces@, w);
        }
        let ghost w0 = self.workspaces@;
        assert(w0[i as int].wf());
        self.workspaces[i].focus_window(w);
        proof {
            crate::state::lemma_all_wf_update(w0, i as int, self.workspaces@[i as int]);
            assert(self.workspaces@ =~= w0.update(i as int, self.workspaces@[i as int]));
        }
        let mon = self.workspaces[i].monitor_id();
        match self.switch_debounce_until {
            Some(until) => {
                if now < until {
                    effects.push(Effect::PublishBarState);
                    return effects;
                } else {
                    self.switch_debounce_until = None;
                }
            },
            None => {},
        }
        let ghost a0 = self.displays.spec_active();
        let prev = self.displays.active_mut().insert(mon, i);
        assert(self.displays.spec_active() == a0.insert(mon, i));
        match prev {
            Some(p) => {
                if p != i {
                    let e = self.hide_workspace(p);
                    effects.push(e);
                }
            },
            None => {},
        }
        effects.push(Effect::PublishBarState);
        effects
    }

    /// The window moved. `hit` is `None` when the window has no laid-out
    /// rect, else the laid-out window its centre is over.
    pub fn on_window_moved(&mut self, w: WindowId, hit: Option<Option<WindowId>>, now: u64)
        requires
            old(self).wf(),
        ensures
            final(self).wf(),
            Self::same_frame(*final(self), *old(self)),
            final(self).spec_workspaces() == old(self).spec_workspaces(),
            final(self).spec_hidden() == old(self).spec_hidden(),
            final(self).spec_drag() == moved_spec(
                old(self).spec_drag(),
                w,
                hit,
                workspace_of(old(self).spec_workspaces(), w) is Some,
                now,
            ),
    {
        self.drag.on_moved(w, hit, &self.workspaces, now);
    }
}


/// What the system reports of a tracked window when hidden windows are
/// reconciled: whether it is hidden, and its app's bundle id and name.
pub struct WindowReport {
    pub window: WindowId,
    pub hidden: bool,
    pub bundle: Option<String>,
    pub app_name: Option<String>,
}

/// The window and hidden flag of each report.
pub open spec fn report_pairs(reports: Seq<WindowReport>) -> Seq<(WindowId, bool)> {
    reports.map_values(|r: WindowReport| (r.window, r.hidden))
}

/// The app bundle id of the report for window `w`, if any.
pub open spec fn report_bundle(reports: Seq<WindowReport>, w: WindowId) -> Option<Seq<char>> {
    if exists|x: int| 0 <= x < reports.len() && reports[x].window == w {
        opt_view(reports[choose|x: int| 0 <= x < reports.len() && reports[x].window == w].bundle)
    } else {
        None
    }
}

/// The app name of the report for window `w`, if any.
pub open spec fn report_name(reports: Seq<WindowReport>, w: WindowId) -> Option<Seq<char>> {
    if exists|x: int| 0 <= x < reports.len() && reports[x].window == w {
        opt_view(reports[choose|x: int| 0 <= x < reports.len() && reports[x].window == w].app_name)
    } else {
        None
    }
}

/// Showing window `w` again during a reconciliation: as `shown_outcome`
/// when it is remembered as hidden, else nothing.
pub open spec fn show_step(
    before: StateManager,
    after: StateManager,
    w: WindowId,
    bundle: Option<Seq<char>>,
    name: Option<Seq<char>>,
    e: Seq<Effect>,
) -> bool {
    if before.spec_hidden().contains_key(w) {
        shown_outcome(before, after, w, bundle, name, e)
    } else {
        after == before && e.len() == 0
    }
}

/// The effect lists of `es`, one after the other.
pub open spec fn concat_effects(es: Seq<Seq<Effect>>) -> Seq<Effect>
    decreases es.len(),
{
    if es.len() == 0 {
        Seq::empty()
    } else {
        concat_effects(es.drop_last()) + es.last()
    }
}

/// A reconciliation from state `start` with `reports`, step by step:
/// `trace` holds the state before each step and after the last, `effs` the
/// effects of each step. First each window to hide (`to_hide_spec`) is
/// handled as `on_window_hidden` handles it, in order; then each window to
/// show (`to_show_spec`) as `show_step` describes, with its report's app.
pub open spec fn reconcile_trace(
    start: StateManager,
    reports: Seq<WindowReport>,
    trace: Seq<StateManager>,
    effs: Seq<Seq<Effect>>,
) -> bool {
    let hs = to_hide_spec(report_pairs(reports), start.spec_workspaces());
    let ss = to_show_spec(report_pairs(reports), start.spec_hidden());
    &&& trace.len() == hs.len() + ss.len() + 1
    &&& effs.len() == hs.len() + ss.len()
    &&& trace[0] == start
    &&& forall|q: int| #![trigger effs[q]] 0 <= q < hs.len() ==> hidden_outcome(trace[q], trace[q + 1], hs[q], effs[q])
    &&& forall|q: int|
        #![trigger effs[q]]
        hs.len() <= q < effs.len() ==> show_step(
            trace[q],
            trace[q + 1],
            ss[q - hs.len()],
            report_bundle(reports, ss[q - hs.len()]),
            report_name(reports, ss[q - hs.len()]),
            effs[q],
        )
}

/// `pids` without the windows of `gone`.
pub open spec fn pids_without(pids: Map<WindowId, i32>, gone: Seq<WindowId>) -> Map<WindowId, i32> {
    Map::new(|w: WindowId| pids.contains_key(w) && !gone.contains(w), |w: WindowId| pids[w])
}

impl StateManager {
    /// A periodic tick at `now` (milliseconds). When a reconciliation of the
    /// hidden windows is due, the caller is asked to check them; then the
    /// drag tracker ticks: a swap it calls for happens in the dragged
    /// window's workspace (laid out again when the pair was found), a snap
    /// back lays the active workspace out again.
    pub fn on_tick(&mut self, now: u64) -> (r: Vec<Effect>)
        requires
            old(self).wf(),
        ensures
            final(self).wf(),
            Self::same_frame(*final(self), *old(self)),
            final(self).spec_hidden() == old(self).spec_hidden(),
            exists|a: int|
                #[trigger] old(self).active_choice(a) && {
                    let (d, action) = tick_spec(old(self).spec_drag(), now, old(self).spec_workspaces(), a as usize);
                    let due = old(self).spec_hidden_due(now);
                    let pre: Seq<Effect> = if due {
                        seq![Effect::CheckHidden]
                    } else {
                        Seq::empty()
                    };
                    &&& final(self).spec_drag() == d
                    &&& match action {
                        DragTickAction::Swap { workspace_idx, drag, target } => {
                            &&& only_changed(old(self).spec_workspaces(), final(self).spec_workspaces(), workspace_idx as int)
                            &&& swapped_by_id(
                                old(self).spec_workspaces()[workspace_idx as int],
                                final(self).spec_workspaces()[workspace_idx as int],
                                drag,
                                target,
                            )
                            &&& r@ == if pair_found(old(self).spec_workspaces()[workspace_idx as int].nodes(), drag, target) {
                                pre.push(Effect::ApplyLayout(workspace_idx))
                            } else {
                                pre
                            }
                        },
                        DragTickAction::SnapBack { workspace_idx } => final(self).spec_workspaces() == old(
                            self,
                        ).spec_workspaces() && r@ == pre.push(Effect::ApplyLayout(workspace_idx)),
                        DragTickAction::Nothing => final(self).spec_workspaces() == old(self).spec_workspaces() && r@
                            == pre,
                    }
                },
    {
        let mut effects: Vec<Effect> = Vec::new();
        let ghost s0 = *self;
        if self.hidden.should_reconcile(now) {
            effects.push(Effect::CheckHidden);
        }
        assert(Self::same_frame(*self, s0));
        let active = self.active_workspace_idx();
        let ghost w0 = self.workspaces@;
        match self.drag.on_tick(now, &self.workspaces, active) {
            DragTickAction::Swap { workspace_idx, drag, target } => {
                proof {
                    crate::state::lemma_workspace_of_facts(w0, drag);
                }
                assert(w0[workspace_idx as int].wf());
                if self.workspaces[workspace_idx].swap_windows_by_id(drag, target) {
                    effects.push(Effect::ApplyLayout(workspace_idx));
                }
                proof {
                    crate::state::lemma_all_wf_update(w0, workspace_idx as int, self.workspaces@[workspace_idx as int]);
                    assert(self.workspaces@ =~= w0.update(workspace_idx as int, self.workspaces@[workspace_idx as int]));
                }
            },
            DragTickAction::SnapBack { workspace_idx } => {
                effects.push(Effect::ApplyLayout(workspace_idx));
            },
            DragTickAction::Nothing => {},
        }
        assert(old(self).active_choice(active as int));
        effects
    }

    /// Whether a reconciliation of the hidden windows is due at `now`.
    pub closed spec fn spec_hidden_due(&self, now: u64) -> bool {
        now >= self.hidden.spec_last_reconcile() && now - self.hidden.spec_last_reconcile()
            >= crate::state::hidden::RECONCILE_INTERVAL_MS
    }

    /// Bring the tiling in line with what the system reports: a reported
    /// hidden window still tiled is hidden (as `on_window_hidden`), then a
    /// reported visible window remembered as hidden is shown again (as
    /// `on_window_shown`), each in the order of `reports`.
    #[verifier::rlimit(60)]
    pub fn reconcile_hidden_windows(&mut self, reports: &Vec<WindowReport>) -> (r: Vec<Effect>)
        requires
            old(self).wf(),
            forall|i: int, j: int|
                0 <= i < j < reports@.len() ==> (#[trigger] reports@[i]).window != (#[trigger] reports@[j]).window,
        ensures
            final(self).wf(),
            Self::same_frame(*final(self), *old(self)),
            forall|w: WindowId|
                #[trigger] to_hide_spec(report_pairs(reports@), old(self).spec_workspaces()).contains(w)
                    ==> final(self).spec_hidden().contains_key(w),
            forall|w: WindowId|
                #[trigger] final(self).spec_hidden().contains_key(w) ==> old(self).spec_hidden().contains_key(w)
                    || to_hide_spec(report_pairs(reports@), old(self).spec_workspaces()).contains(w),
            exists|trace: Seq<StateManager>, effs: Seq<Seq<Effect>>|
                #[trigger] reconcile_trace(*old(self), reports@, trace, effs) && trace.last() == *final(self) && r@
                    == concat_effects(effs),
    {
        let mut pairs: Vec<(WindowId, bool)> = Vec::new();
        let mut i: usize = 0;
        while i < reports.len()
            invariant
                i <= reports@.len(),
                pairs@ == report_pairs(reports@.take(i as int)),
            decreases reports@.len() - i,
        {
            pairs.push((reports[i].window, reports[i].hidden));
            assert(report_pairs(reports@.take(i + 1)) =~= report_pairs(reports@.take(i as int)).push(
                (reports@[i as int].window, reports@[i as int].hidden),
            ));
            i = i + 1;
        }
        assert(reports@.take(i as int) =~= reports@);
        let (to_hide, to_show) = self.hidden.pending_for_reconcile(&pairs, &self.workspaces);
        let ghost h0 = self.spec_hidden();
        proof {
            assert forall|q: int| 0 <= q < to_hide@.len() implies workspace_of(self.spec_workspaces(), #[trigger] to_hide@[q]) is Some by {
                assert(to_hide@.contains(to_hide@[q]));
                crate::state::hidden::lemma_to_hide_members(pairs@, self.workspaces@, to_hide@[q]);
            }
            assert forall|w: WindowId| to_hide@.contains(w) implies !to_show@.contains(w) by {
                crate::state::hidden::lemma_to_hide_members(pairs@, self.workspaces@, w);
                crate::state::hidden::lemma_to_show_members(pairs@, h0, w);
                if to_show@.contains(w) {
                    let i = choose|i: int| 0 <= i < pairs@.len() && pairs@[i] == (w, true);
                    let j = choose|j: int| 0 <= j < pairs@.len() && pairs@[j] == (w, false);
                    assert(pairs@[i] == (reports@[i].window, reports@[i].hidden));
                    assert(pairs@[j] == (reports@[j].window, reports@[j].hidden));
                    if i < j {
                        assert(reports@[i].window != reports@[j].window);
                    } else if j < i {
                        assert(reports@[j].window != reports@[i].window);
                    }
                }
            }
        }
        let mut effects: Vec<Effect> = Vec::new();
        let ghost s0 = *self;
        let ghost mut trace: Seq<StateManager> = seq![*self];
        let ghost mut effs: Seq<Seq<Effect>> = Seq::empty();
        let mut k: usize = 0;
        while k < to_hide.len()
            invariant
                self.wf(),
                Self::same_frame(*self, s0),
                k <= to_hide@.len(),
                trace.len() == k + 1,
                effs.len() == k,
                trace[0] == s0,
                trace.last() == *self,
                effects@ == concat_effects(effs),
                forall|q: int| #![trigger effs[q]] 0 <= q < k ==> hidden_outcome(trace[q], trace[q + 1], to_hide@[q], effs[q]),
                forall|q: int| 0 <= q < k ==> self.spec_hidden().contains_key(#[trigger] to_hide@[q]),
                forall|q: int|
                    k <= q < to_hide@.len() ==> self.spec_hidden().contains_key(#[trigger] to_hide@[q]) || workspace_of(
                        self.spec_workspaces(),
                        to_hide@[q],
                    ) is Some,
                forall|w: WindowId|
                    #[trigger] self.spec_hidden().contains_key(w) ==> h0.contains_key(w) || to_hide@.contains(w),
            decreases to_hide@.len() - k,
        {
            let w = to_hide[k];
            let ghost before = *self;
            let ghost e0 = effects@;
            let ghost mut step: Seq<Effect> = Seq::empty();
            if find_workspace_for_window(&self.workspaces, w).is_some() {
                let mut more = self.on_window_hidden(w);
                proof {
                    step = more@;
                }
                effects.append(&mut more);
                proof {
                    assert forall|q: int| k < q < to_hide@.len() implies self.spec_hidden().contains_key(
                        #[trigger] to_hide@[q],
                    ) || workspace_of(self.spec_workspaces(), to_hide@[q]) is Some by {
                        let x = to_hide@[q];
                        if !before.spec_hidden().contains_key(x) && x != w {
                            crate::state::lemma_workspace_of_facts(before.spec_workspaces(), w);
                            lemma_still_held(
                                before.spec_workspaces(),
                                self.spec_workspaces(),
                                workspace_of(before.spec_workspaces(), w)->0,
                                w,
                                x,
                            );
                        }
                    }
                }
            }
            proof {
                assert forall|w2: WindowId| #[trigger] self.spec_hidden().contains_key(w2) implies h0.contains_key(w2)
                    || to_hide@.contains(w2) by {
                    if w2 == w {
                        assert(to_hide@[k as int] == w);
                    }
                }
                assert(hidden_outcome(before, *self, w, step));
                assert(effects@ == e0 + step);
                let t0 = trace;
                let f0 = effs;
                trace = trace.push(*self);
                effs = effs.push(step);
                assert(effs.drop_last() =~= f0);
                assert forall|q: int| #![trigger effs[q]] 0 <= q < k + 1 implies hidden_outcome(
                    trace[q],
                    trace[q + 1],
                    to_hide@[q],
                    effs[q],
                ) by {
                    if q < k {
                        assert(f0[q] == effs[q]);
                        assert(trace[q] == t0[q] && trace[q + 1] == t0[q + 1]);
                    }
                }
            }
            k = k + 1;
        }
        assert(forall|q: int| 0 <= q < to_hide@.len() ==> self.spec_hidden().contains_key(#[trigger] to_hide@[q]));
        let ghost hn = to_hide@.len();
        let mut k: usize = 0;
        while k < to_show.len()
            invariant
                self.wf(),
                Self::same_frame(*self, s0),
                k <= to_show@.len(),
                hn == to_hide@.len(),
                forall|i: int, j: int|
                    0 <= i < j < reports@.len() ==> (#[trigger] reports@[i]).window != (#[trigger] reports@[j]).window,
                trace.len() == hn + k + 1,
                effs.len() == hn + k,
                trace[0] == s0,
                trace.last() == *self,
                effects@ == concat_effects(effs),
                forall|q: int| #![trigger effs[q]] 0 <= q < hn ==> hidden_outcome(trace[q], trace[q + 1], to_hide@[q], effs[q]),
                forall|q: int|
                    #![trigger effs[q]]
                    hn <= q < hn + k ==> show_step(
                        trace[q],
                        trace[q + 1],
                        to_show@[q - hn],
                        report_bundle(reports@, to_show@[q - hn]),
                        report_name(reports@, to_show@[q - hn]),
                        effs[q],
                    ),
                forall|w: WindowId| to_hide@.contains(w) ==> !to_show@.contains(w),
                forall|q: int| 0 <= q < to_hide@.len() ==> self.spec_hidden().contains_key(#[trigger] to_hide@[q]),
                forall|w: WindowId|
                    #[trigger] self.spec_hidden().contains_key(w) ==> h0.contains_key(w) || to_hide@.contains(w),
            decreases to_show@.len() - k,
        {
            let w = to_show[k];
            assert(to_show@.contains(w));
            let ghost before = *self;
            let ghost e0 = effects@;
            let ghost mut step: Seq<Effect> = Seq::empty();
            if self.hidden.contains(w) {
                let mut j: usize = 0;
                let mut found: Option<usize> = None;
                while j < reports.len() && found.is_none()
                    invariant
                        j <= reports@.len(),
                        found matches Some(x) ==> x < reports@.len() && reports@[x as int].window == w,
                        found is None ==> forall|y: int| 0 <= y < j ==> reports@[y].window != w,
                    decreases reports@.len() - j,
                {
                    if reports[j].window == w {
                        found = Some(j);
                    }
                    j = j + 1;
                }
                let mut more = match found {
                    Some(x) => {
                        proof {
                            let c = choose|c: int| 0 <= c < reports@.len() && reports@[c].window == w;
                            if c < x {
                                assert(reports@[c].window != reports@[x as int].window);
                            } else if x < c {
                                assert(reports@[x as int].window != reports@[c].window);
                            }
                            assert(report_bundle(reports@, w) == opt_view(reports@[x as int].bundle));
                            assert(report_name(reports@, w) == opt_view(reports@[x as int].app_name));
                        }
                        self.on_window_shown(w, &reports[x].bundle, &reports[x].app_name)
                    },
                    None => {
                        proof {
                            assert(report_bundle(reports@, w) is None);
                            assert(report_name(reports@, w) is None);
                        }
                        self.on_window_shown(w, &None, &None)
                    },
                };
                proof {
                    step = more@;
                }
                effects.append(&mut more);
                proof {
                    assert forall|q: int| 0 <= q < to_hide@.len() implies self.spec_hidden().contains_key(
                        #[trigger] to_hide@[q],
                    ) by {
                        assert(to_hide@.contains(to_hide@[q]));
                    }
                }
            }
            proof {
                assert(show_step(before, *self, w, report_bundle(reports@, w), report_name(reports@, w), step));
                assert(effects@ == e0 + step);
                let t0 = trace;
                let f0 = effs;
                trace = trace.push(*self);
                effs = effs.push(step);
                assert(effs.drop_last() =~= f0);
                assert forall|q: int| #![trigger effs[q]] 0 <= q < hn implies hidden_outcome(
                    trace[q],
                    trace[q + 1],
                    to_hide@[q],
                    effs[q],
                ) by {
                    assert(f0[q] == effs[q]);
                    assert(trace[q] == t0[q] && trace[q + 1] == t0[q + 1]);
                }
                assert forall|q: int| #![trigger effs[q]] hn <= q < hn + k + 1 implies show_step(
                    trace[q],
                    trace[q + 1],
                    to_show@[q - hn],
                    report_bundle(reports@, to_show@[q - hn]),
                    report_name(reports@, to_show@[q - hn]),
                    effs[q],
                ) by {
                    if q < hn + k {
                        assert(f0[q] == effs[q]);
                        assert(trace[q] == t0[q] && trace[q + 1] == t0[q + 1]);
                    } else {
                        assert(to_show@[q - hn] == w);
                    }
                }
            }
            k = k + 1;
        }
        proof {
            assert(reconcile_trace(s0, reports@, trace, effs));
            assert forall|w: WindowId|
                #[trigger] to_hide_spec(report_pairs(reports@), s0.spec_workspaces()).contains(w) implies self.spec_hidden().contains_key(w) by {
                let q = choose|q: int| 0 <= q < to_hide@.len() && to_hide@[q] == w;
            }
        }
        effects
    }

    /// An app started: unless it is excluded, start watching it, record its
    /// windows and queue them as created.
    pub fn on_app_launched(&mut self, pid: i32, windows: &Vec<WindowId>) -> (r: Vec<Effect>)
        requires
            old(self).wf(),
        ensures
            final(self).wf(),
            old(self).spec_excluded().contains(pid) ==> *final(self) == *old(self) && r@.len() == 0,
            !old(self).spec_excluded().contains(pid) ==> {
                &&& Self::same_but_apps(*final(self), *old(self))
                &&& final(self).spec_window_pids() == pids_with(old(self).spec_window_pids(), pid, windows@)
                &&& final(self).spec_pid_windows() == lists_with(old(self).spec_pid_windows(), pid, windows@)
                &&& r@ == watch_effects(pid, windows@)
            },
    {
        let mut effects: Vec<Effect> = Vec::new();
        if self.is_excluded(pid) {
            return effects;
        }
        self.watch_app(pid, windows, &mut effects);
        effects
    }

    /// Whether the app's windows are never tiled.
    fn is_excluded(&self, pid: i32) -> (r: bool)
        ensures
            r == self.spec_excluded().contains(pid),
    {
        let mut k: usize = 0;
        while k < self.excluded_pids.len()
            invariant
                k <= self.excluded_pids@.len(),
                forall|j: int| 0 <= j < k ==> self.excluded_pids@[j] != pid,
            decreases self.excluded_pids@.len() - k,
        {
            if self.excluded_pids[k] == pid {
                assert(self.spec_excluded()[k as int] == pid);
                return true;
            }
            k = k + 1;
        }
        false
    }

    /// An app quit: stop watching it, forget its windows and queue each as
    /// destroyed.
    pub fn on_app_terminated(&mut self, pid: i32) -> (r: Vec<Effect>)
        requires
            old(self).wf(),
        ensures
            final(self).wf(),
            final(self).spec_workspaces() == old(self).spec_workspaces(),
            final(self).spec_active() == old(self).spec_active(),
            final(self).spec_hidden() == old(self).spec_hidden(),
            final(self).spec_frontmost() == old(self).spec_frontmost(),
            final(self).spec_pid_windows() == old(self).spec_pid_windows().remove(pid),
            ({
                let gone = if old(self).spec_pid_windows().contains_key(pid) {
                    old(self).spec_pid_windows()[pid]
                } else {
                    Seq::empty()
                };
                &&& final(self).spec_window_pids() == pids_without(old(self).spec_window_pids(), gone)
                &&& r@ == seq![Effect::DetachObserver(pid)] + gone.map_values(
                    |w: WindowId| Effect::QueueWindowDestroyed(w),
                ) + seq![Effect::PublishBarState]
            }),
    {
        let mut effects: Vec<Effect> = Vec::new();
        effects.push(Effect::DetachObserver(pid));
        let ghost l0 = self.spec_pid_windows();
        let ghost p0 = self.spec_window_pids();
        let ghost raw0 = self.pid_to_windows@;
        match self.pid_to_windows.remove(&pid) {
            Some(windows) => {
                let mut i: usize = 0;
                assert(pids_without(p0, windows@.take(0)) =~= p0);
                while i < windows.len()
                    invariant
                        i <= windows@.len(),
                        l0.contains_key(pid),
                        windows@ == l0[pid],
                        self.pid_to_windows@ == raw0.remove(pid),
                        self.workspaces == old(self).workspaces,
                        self.displays == old(self).displays,
                        self.hidden == old(self).hidden,
                        self.frontmost_pid == old(self).frontmost_pid,
                        self.window_pids@ == pids_without(p0, windows@.take(i as int)),
                        effects@ == seq![Effect::DetachObserver(pid)] + windows@.take(i as int).map_values(
                            |w: WindowId| Effect::QueueWindowDestroyed(w),
                        ),
                    decreases windows@.len() - i,
                {
                    let w = windows[i];
                    self.window_pids.remove(&w);
                    effects.push(Effect::QueueWindowDestroyed(w));
                    proof {
                        let t = windows@.take(i + 1);
                        assert(t =~= windows@.take(i as int).push(w));
                        assert forall|x: WindowId| t.contains(x) == (windows@.take(i as int).contains(x) || x == w) by {
                            if t.contains(x) && x != w {
                                let j = choose|j: int| 0 <= j < t.len() && t[j] == x;
                                assert(windows@.take(i as int)[j] == x);
                            }
                            if windows@.take(i as int).contains(x) {
                                let j = choose|j: int| 0 <= j < i && windows@.take(i as int)[j] == x;
                                assert(t[j] == x);
                            }
                            if x == w {
                                assert(t[i as int] == x);
                            }
                        }
                        assert(self.window_pids@ =~= pids_without(p0, t));
                        assert(t.map_values(|w: WindowId| Effect::QueueWindowDestroyed(w)) =~= windows@.take(
                            i as int,
                        ).map_values(|w: WindowId| Effect::QueueWindowDestroyed(w)).push(Effect::QueueWindowDestroyed(w)));
                    }
                    i = i + 1;
                }
                assert(windows@.take(i as int) =~= windows@);
            },
            None => {
                assert(pids_without(p0, Seq::empty()) =~= p0);
            },
        }
        assert(self.spec_pid_windows() =~= l0.remove(pid));
        effects.push(Effect::PublishBarState);
        effects
    }

    /// An app came to the front. With `focused`, the window the system
    /// reports focused for it, this is then handled as that window's focus.
    pub fn on_app_activated(&mut self, pid: i32, focused: Option<WindowId>, now: u64) -> (r: Vec<Effect>)
        requires
            old(self).wf(),
        ensures
            final(self).wf(),
            final(self).spec_frontmost() == Some(pid),
            final(self).spec_window_pids() == old(self).spec_window_pids(),
            final(self).spec_hidden() == old(self).spec_hidden(),
            focused is None ==> final(self).spec_workspaces() == old(self).spec_workspaces() && final(self).spec_active()
                == old(self).spec_active() && r@ == seq![Effect::PublishBarState],
            focused matches Some(w) ==> focus_outcome(*old(self), *final(self), w, now, r@),
    {
        self.frontmost_pid = Some(pid);
        match focused {
            Some(w) => self.on_window_focused(w, now),
            None => {
                let mut effects: Vec<Effect> = Vec::new();
                effects.push(Effect::PublishBarState);
                effects
            },
        }
    }
}


/// What a notification that window `w` was hidden does: the first
/// workspace holding it drops it (laid out again when shown) and the
/// tracker remembers that workspace; nothing happens when none holds it.
pub open spec fn hidden_outcome(before: StateManager, after: StateManager, w: WindowId, r: Seq<Effect>) -> bool {
    match workspace_of(before.spec_workspaces(), w) {
        Some(i) => {
            &&& removed_at(before.spec_workspaces(), after.spec_workspaces(), i, w)
            &&& after.spec_hidden() == before.spec_hidden().insert(w, i as usize)
            &&& r == (if before.shows(i) {
                seq![Effect::ApplyLayout(i as usize)]
            } else {
                Seq::empty()
            }).push(Effect::PublishBarState)
        },
        None => after.spec_workspaces() == before.spec_workspaces() && after.spec_hidden() == before.spec_hidden()
            && r.len() == 0,
    }
}

/// What a notification that window `w` was shown again does (its app
/// described by `bundle` and `name`): nothing when a workspace holds it or
/// it is not tracked; otherwise it is forgotten as hidden and placed
/// (`placed`) with the workspace it was hidden from as preference, the
/// workspace it lands in laid out again when shown, then a bar update.
pub open spec fn shown_outcome(
    before: StateManager,
    after: StateManager,
    w: WindowId,
    bundle: Option<Seq<char>>,
    name: Option<Seq<char>>,
    r: Seq<Effect>,
) -> bool {
    if workspace_of(before.spec_workspaces(), w) is Some || !before.spec_window_pids().contains_key(w) {
        after.spec_workspaces() == before.spec_workspaces() && after.spec_hidden() == before.spec_hidden() && r.len()
            == 0
    } else {
        let ws = before.spec_workspaces();
        let h = before.spec_hidden();
        &&& after.spec_hidden() == h.remove(w)
        &&& exists|a: int|
            #[trigger] before.active_choice(a) && exists|res: Option<usize>|
                #[trigger] placed(
                    ws,
                    after.spec_workspaces(),
                    w,
                    return_to(ws, h, w, a, before.spec_entries(), bundle, name),
                    before.spec_max_tiles() as nat,
                    is_restricted_spec(before.spec_restricted(), bundle),
                    res,
                ) && r == match res {
                    Some(t) => (if before.shows(t as int) {
                        seq![Effect::ApplyLayout(t)]
                    } else {
                        Seq::empty()
                    }).push(Effect::PublishBarState),
                    None => Seq::empty(),
                }
    }
}

/// What a focus notification for window `w` at `now` does: nothing when no
/// workspace holds `w`; otherwise the workspace holding it keeps its windows
/// and, unless a recent switch holds the focus, becomes the one its display
/// shows, the workspace shown there before being hidden.
pub open spec fn focus_outcome(before: StateManager, after: StateManager, w: WindowId, now: u64, r: Seq<Effect>) -> bool {
    match workspace_of(before.spec_workspaces(), w) {
        None => after.spec_workspaces() == before.spec_workspaces() && after.spec_active() == before.spec_active()
            && r.len() == 0,
        Some(i) => {
            let ws = before.spec_workspaces();
            let mon = ws[i].spec_monitor_id();
            let held = focus_held(before.spec_debounce(), now);
            &&& only_changed(ws, after.spec_workspaces(), i)
            &&& after.spec_workspaces()[i].window_seq() == ws[i].window_seq()
            &&& after.spec_workspaces()[i].spec_focused() matches Some(x) && crate::shape::holds(ws[i].nodes(), x, w)
            &&& held ==> after.spec_active() == before.spec_active() && after.spec_debounce() == before.spec_debounce()
                && r == seq![Effect::PublishBarState]
            &&& !held ==> {
                let prev = before.spec_active().get(mon);
                &&& after.spec_active() == before.spec_active().insert(mon, i as usize)
                &&& after.spec_debounce() is None
                &&& r.last() == Effect::PublishBarState
                &&& (prev matches Some(p) && p != i) ==> r.len() == 2 && (r[0] matches Effect::HideWindows(v)
                    && v@ == ws[prev->0 as int].window_seq())
                &&& !(prev matches Some(p) && p != i) ==> r.len() == 1
            }
        },
    }
}

/// The layouts a resize of display `id` calls for: each workspace on it,
/// in order, when `displays` has it.
pub open spec fn resize_layouts(ws: Seq<Workspace>, id: u32, displays: Seq<DisplayInfo>) -> Seq<Effect> {
    match display_with_id(displays, id) {
        Some(_) => indices_on(ws, id).map_values(|i: usize| Effect::ApplyLayout(i)),
        None => Seq::empty(),
    }
}

impl StateManager {
    /// A display was added: it gets the workspace set and shows its first
    /// workspace; the bar strip is reserved again. Nothing happens when
    /// `displays` lacks the display.
    pub fn on_monitor_added(&mut self, display_id: u32, primary: u32, displays: &[DisplayInfo]) -> (r: Vec<Effect>)
        requires
            old(self).wf(),
        ensures
            final(self).wf(),
            final(self).spec_window_pids() == old(self).spec_window_pids(),
            final(self).spec_hidden() == old(self).spec_hidden(),
            match display_with_id(displays@, display_id) {
                None => final(self).spec_workspaces() == old(self).spec_workspaces() && final(self).spec_active() == old(
                    self,
                ).spec_active() && r@.len() == 0,
                Some(info) => {
                    let base = old(self).spec_workspaces().len();
                    &&& final(self).spec_workspaces().len() == base + old(self).spec_entries().len()
                    &&& final(self).spec_active() == old(self).spec_active().insert(display_id, base as usize)
                    &&& r@.last() == Effect::PublishBarState
                    &&& exists|mid: Seq<Workspace>|
                        #[trigger] reserved_all(
                            mid,
                            final(self).spec_workspaces(),
                            old(self).spec_bar(),
                            primary,
                            displays@,
                        ) && mid.take(base as int) == old(self).spec_workspaces() && fresh_for(
                            mid.skip(base as int),
                            old(self).spec_entries(),
                            DisplayInfo { id: display_id, ..info },
                        )
                },
            },
    {
        let mut effects: Vec<Effect> = Vec::new();
        let n0 = self.workspaces.len();
        let ghost s0 = *self;
        match self.displays.on_added(display_id, &mut self.workspaces, displays) {
            None => return effects,
            Some(_) => {},
        }
        proof {
            let ws = self.workspaces@;
            assert forall|d: u32| self.displays.spec_active().contains_key(d) implies #[trigger] self.displays.spec_active()[d]
                < ws.len() by {
                if d != display_id {
                    assert(s0.displays.spec_active().contains_key(d));
                }
            }
        }
        let ghost mid = self.workspaces@;
        self.reserve_bar_strip(primary, displays, &mut effects);
        effects.push(Effect::PublishBarState);
        assert(reserved_all(mid, self.workspaces@, s0.spec_bar(), primary, displays@));
        effects
    }

    /// A display was removed: its workspaces move to the primary display,
    /// workspaces on no display of `displays` go, shown indices are kept
    /// valid, and the bar strip is reserved again.
    pub fn on_monitor_removed(&mut self, display_id: u32, primary: u32, displays: &[DisplayInfo]) -> (r: Vec<Effect>)
        requires
            old(self).wf(),
        ensures
            final(self).wf(),
            final(self).spec_window_pids() == old(self).spec_window_pids(),
            final(self).spec_hidden() == old(self).spec_hidden(),
            final(self).spec_workspaces().len() >= 1,
            ({
                let kept = below(old(self).spec_active(), final(self).spec_workspaces().len() as usize);
                final(self).spec_active() == if kept.is_empty() {
                    map![final(self).spec_workspaces()[0].spec_monitor_id() => 0usize]
                } else {
                    kept
                }
            }),
            r@.last() == Effect::PublishBarState,
            exists|mid: Seq<Workspace>|
                #[trigger] reserved_all(mid, final(self).spec_workspaces(), old(self).spec_bar(), primary, displays@) && ({
                    let origin = primary_origin(displays@, primary);
                    if kept_count(old(self).spec_workspaces(), display_id, primary, displays@) > 0 {
                        survivors(old(self).spec_workspaces(), mid, display_id, primary, origin, displays@)
                    } else {
                        mid.len() == 1 && is_fresh(mid[0], "ws-1"@, primary, origin, (1920, 1080))
                    }
                }),
    {
        let mut effects: Vec<Effect> = Vec::new();
        self.displays.on_removed(display_id, &mut self.workspaces, primary, displays);
        let ghost mid = self.workspaces@;
        let n = self.workspaces.len();
        proof {
            crate::state::display::law_removed_shows_valid_indices(
                old(self).spec_active(),
                n as usize,
                self.workspaces@[0].spec_monitor_id(),
            );
        }
        self.reserve_bar_strip(primary, displays, &mut effects);
        effects.push(Effect::PublishBarState);
        assert(reserved_all(mid, self.workspaces@, old(self).spec_bar(), primary, displays@));
        effects
    }

    /// A display changed size: its workspaces take the new geometry and are
    /// laid out again, and the bar strip is reserved again.
    pub fn on_monitor_resized(&mut self, display_id: u32, primary: u32, displays: &[DisplayInfo]) -> (r: Vec<Effect>)
        requires
            old(self).wf(),
        ensures
            final(self).wf(),
            final(self).spec_window_pids() == old(self).spec_window_pids(),
            final(self).spec_hidden() == old(self).spec_hidden(),
            final(self).spec_active() == old(self).spec_active(),
            final(self).spec_workspaces().len() == old(self).spec_workspaces().len(),
            r@.len() > resize_layouts(old(self).spec_workspaces(), display_id, displays@).len(),
            r@.take(resize_layouts(old(self).spec_workspaces(), display_id, displays@).len() as int) == resize_layouts(
                old(self).spec_workspaces(),
                display_id,
                displays@,
            ),
            r@.last() == Effect::PublishBarState,
            exists|mid: Seq<Workspace>|
                #[trigger] reserved_all(mid, final(self).spec_workspaces(), old(self).spec_bar(), primary, displays@)
                    && match display_with_id(displays@, display_id) {
                    None => mid == old(self).spec_workspaces(),
                    Some(info) => forall|i: int|
                        0 <= i < mid.len() ==> if (#[trigger] old(self).spec_workspaces()[i]).spec_monitor_id()
                            == display_id {
                            resized(old(self).spec_workspaces()[i], mid[i], info.origin, info.size)
                        } else {
                            mid[i] == old(self).spec_workspaces()[i]
                        },
                },
    {
        let mut effects: Vec<Effect> = Vec::new();
        let affected = self.displays.on_resized(display_id, &mut self.workspaces, displays);
        let mut i: usize = 0;
        while i < affected.len()
            invariant
                i <= affected@.len(),
                effects@ == affected@.take(i as int).map_values(|k: usize| Effect::ApplyLayout(k)),
            decreases affected@.len() - i,
        {
            effects.push(Effect::ApplyLayout(affected[i]));
            assert(affected@.take(i + 1).map_values(|k: usize| Effect::ApplyLayout(k)) =~= affected@.take(
                i as int,
            ).map_values(|k: usize| Effect::ApplyLayout(k)).push(Effect::ApplyLayout(affected@[i as int])));
            i = i + 1;
        }
        assert(affected@.take(i as int) =~= affected@);
        let ghost e1 = effects@;
        let ghost mid = self.workspaces@;
        self.reserve_bar_strip(primary, displays, &mut effects);
        effects.push(Effect::PublishBarState);
        proof {
            assert(effects@.take(e1.len() as int) =~= e1);
            assert(reserved_all(mid, self.workspaces@, old(self).spec_bar(), primary, displays@));
        }
        effects
    }
}


impl StateManager {
    /// Take freshly loaded settings: gaps (negative ones as zero), tile
    /// capacity, restricted apps and the workspace set (the built-in one
    /// when none is configured) are replaced, the bar follows its new
    /// table, the active workspace is laid out again and the bar is told
    /// to reload. A bar newly disabled is told to exit; otherwise it is
    /// told whether to show. The bar strip is reserved again either way.
    pub fn reload_config(&mut self, settings: Settings, primary: u32, displays: &[DisplayInfo]) -> (r: Vec<Effect>)
        requires
            old(self).wf(),
        ensures
            final(self).wf(),
            final(self).spec_gaps() == (
                if settings.gap_outer < 0 {
                    0
                } else {
                    settings.gap_outer
                },
                if settings.gap_inner < 0 {
                    0
                } else {
                    settings.gap_inner
                },
            ),
            final(self).spec_max_tiles() == if settings.max_tiles < 1 {
                1
            } else {
                settings.max_tiles
            },
            final(self).spec_restricted() == settings.restricted_apps@.map_values(|a: String| a@),
            entries_view(final(self).spec_entries()) =~~= expected_entries(settings),
            final(self).spec_bar().spec_config() == settings.bar,
            final(self).spec_active() == old(self).spec_active(),
            final(self).spec_window_pids() == old(self).spec_window_pids(),
            final(self).spec_hidden() == old(self).spec_hidden(),
            final(self).spec_workspaces().len() == old(self).spec_workspaces().len(),
            r@.len() >= 3,
            r@[1] == Effect::SendBar(BarSignal::Reload),
            r@.last() == Effect::PublishBarState,
            !settings.bar.enabled && old(self).spec_bar().spec_spawned() ==> r@.contains(
                Effect::SendBar(BarSignal::Exit),
            ) && !final(self).spec_bar_visible(),
            !(!settings.bar.enabled && old(self).spec_bar().spec_spawned()) ==> r@[r@.len() - 2] != Effect::SendBar(
                BarSignal::Exit,
            ) && r@[2] == Effect::SendBar(
                if final(self).spec_bar().spec_visible() {
                    BarSignal::Show
                } else {
                    BarSignal::Hide
                },
            ),
            r@[0] matches Effect::ApplyLayout(i) && old(self).active_choice(i as int),
            reserved_all(
                old(self).spec_workspaces(),
                final(self).spec_workspaces(),
                final(self).spec_bar(),
                primary,
                displays@,
            ),
    {
        let Settings {
            gap_outer,
            gap_inner,
            max_tiles,
            restricted_apps,
            bar: bar_config,
            menubar: _,
            workspaces: configured,
        } = settings;
        self.gap_outer = if gap_outer < 0 {
            0
        } else {
            gap_outer
        };
        self.gap_inner = if gap_inner < 0 {
            0
        } else {
            gap_inner
        };
        self.router.set_max_tiles(max_tiles);
        self.restricted_apps = restricted_apps;
        let entries = if configured.len() == 0 {
            crate::settings::default_workspaces()
        } else {
            configured
        };
        assert(entries@.len() > 0) by {
            assert(entries_view(entries@).len() == entries@.len());
        }
        self.displays.set_entries(entries);
        let action = self.bar.on_reload(bar_config);
        let mut effects: Vec<Effect> = Vec::new();
        let active = self.active_workspace_idx();
        effects.push(Effect::ApplyLayout(active));
        effects.push(Effect::SendBar(BarSignal::Reload));
        match action {
            ReloadAction::ShouldExit => {
                effects.push(Effect::SendBar(BarSignal::Exit));
                let ghost e1 = effects@;
                self.reserve_bar_strip(primary, displays, &mut effects);
                effects.push(Effect::PublishBarState);
                assert(effects@[2] == e1[2]);
                assert(effects@.contains(Effect::SendBar(BarSignal::Exit)));
                return effects;
            },
            _ => {},
        }
        let signal = if self.bar.is_visible() {
            BarSignal::Show
        } else {
            BarSignal::Hide
        };
        effects.push(Effect::SendBar(signal));
        self.reserve_bar_strip(primary, displays, &mut effects);
        effects.push(Effect::PublishBarState);
        effects
    }
}


/// The bar's label of each window of `wins` that belongs to a tracked app,
/// in order: the app's label, or "unknown" when there is none.
pub open spec fn window_labels(wins: Seq<WindowId>, pids: Map<WindowId, i32>, labels: Map<i32, String>) -> Seq<
    Seq<char>,
>
    decreases wins.len(),
{
    if wins.len() == 0 {
        Seq::empty()
    } else {
        let pre = window_labels(wins.drop_last(), pids, labels);
        let w = wins.last();
        if pids.contains_key(w) {
            pre.push(
                if labels.contains_key(pids[w]) {
                    labels[pids[w]]@
                } else {
                    "unknown"@
                },
            )
        } else {
            pre
        }
    }
}

/// `b` describes workspace `ws` at index `i` for the bar.
pub open spec fn bar_entry_matches(
    b: BarWorkspace,
    ws: Workspace,
    i: int,
    active_monitor: u32,
    active: Map<u32, usize>,
    pids: Map<WindowId, i32>,
    labels: Map<i32, String>,
) -> bool {
    &&& b.name@ == ws.spec_name()
    &&& b.monitor_id == ws.spec_monitor_id()
    &&& b.window_count == ws.window_seq().len()
    &&& b.active == (ws.spec_monitor_id() == active_monitor && active.contains_key(ws.spec_monitor_id())
        && active[ws.spec_monitor_id()] == i)
    &&& b.windows@.map_values(|s: String| s@) == window_labels(ws.window_seq(), pids, labels)
}

impl StateManager {
    /// The bar's labels of the windows of `ws`.
    fn labels_of(&self, ws: &Workspace, labels: &HashMap<i32, String>) -> (r: Vec<String>)
        requires
            ws.wf(),
        ensures
            r@.map_values(|s: String| s@) == window_labels(ws.window_seq(), self.spec_window_pids(), labels@),
    {
        let wins = ws.all_windows();
        let mut out: Vec<String> = Vec::new();
        let mut i: usize = 0;
        while i < wins.len()
            invariant
                i <= wins@.len(),
                out@.map_values(|s: String| s@) == window_labels(wins@.take(i as int), self.spec_window_pids(), labels@),
            decreases wins@.len() - i,
        {
            let w = wins[i];
            assert(wins@.take(i + 1).drop_last() =~= wins@.take(i as int));
            assert(wins@.take(i + 1).last() == w);
            match self.window_pids.get(&w) {
                Some(pid) => {
                    let label = match labels.get(pid) {
                        Some(l) => l.clone(),
                        None => String::from_str("unknown"),
                    };
                    proof {
                        reveal_strlit("unknown");
                    }
                    let ghost before = out@;
                    out.push(label);
                    assert(out@.map_values(|s: String| s@) =~= before.map_values(|s: String| s@).push(label@));
                },
                None => {},
            }
            i = i + 1;
        }
        assert(wins@.take(i as int) =~= wins@);
        out
    }

    /// What the bar draws: every workspace with its name, display, window
    /// count, whether its display shows it on the active display, and the
    /// labels (from `labels`, by app) of its windows; the active workspace
    /// and the split direction at its focus; and the strip the bar reserves
    /// on display `primary`.
    pub fn bar_state(&self, labels: &HashMap<i32, String>, primary: u32, displays: &[DisplayInfo]) -> (r: BarState)
        requires
            self.wf(),
        ensures
            self.active_choice(r.active_workspace as int),
            r.split_direction == match self.spec_workspaces()[r.active_workspace as int].spec_focused() {
                None => None,
                Some(f) => crate::shape::parent_split_dir(self.spec_workspaces()[r.active_workspace as int].nodes(), f),
            },
            r.rect == (if self.spec_bar().spec_visible() && self.spec_bar().spec_spawned() {
                strip_on(self.spec_bar().spec_config(), primary, displays@)
            } else {
                None
            }),
            r.workspaces@.len() == self.spec_workspaces().len(),
            forall|i: int|
                0 <= i < r.workspaces@.len() ==> bar_entry_matches(
                    #[trigger] r.workspaces@[i],
                    self.spec_workspaces()[i],
                    i,
                    self.spec_workspaces()[r.active_workspace as int].spec_monitor_id(),
                    self.spec_active(),
                    self.spec_window_pids(),
                    labels@,
                ),
    {
        let active_idx = self.active_workspace_idx();
        assert(self.workspaces@[active_idx as int].wf());
        let active_monitor = self.workspaces[active_idx].monitor_id();
        let split_direction = self.workspaces[active_idx].focused_split_direction();
        let mut out: Vec<BarWorkspace> = Vec::new();
        let mut i: usize = 0;
        while i < self.workspaces.len()
            invariant
                self.wf(),
                i <= self.workspaces@.len(),
                out@.len() == i,
                active_monitor == self.workspaces@[active_idx as int].spec_monitor_id(),
                forall|j: int|
                    0 <= j < i ==> bar_entry_matches(
                        #[trigger] out@[j],
                        self.workspaces@[j],
                        j,
                        active_monitor,
                        self.displays.spec_active(),
                        self.spec_window_pids(),
                        labels@,
                    ),
            decreases self.workspaces@.len() - i,
        {
            let ws = &self.workspaces[i];
            assert(self.workspaces@[i as int].wf());
            let mon = ws.monitor_id();
            let shown = match self.displays.active().get(&mon) {
                Some(k) => *k == i,
                None => false,
            };
            let entry = BarWorkspace {
                name: ws.name().clone(),
                monitor_id: mon,
                window_count: ws.window_count(),
                active: mon == active_monitor && shown,
                windows: self.labels_of(ws, labels),
            };
            out.push(entry);
            i = i + 1;
        }
        BarState {
            workspaces: out,
            active_workspace: active_idx,
            split_direction,
            rect: self.bar.reserved_rect(primary, displays),
        }
    }
}


impl StateManager {
    /// Move the focus of the active workspace to its neighbour in
    /// `direction` and focus that window on the system.
    pub fn focus_command(&mut self, direction: Direction) -> (r: Vec<Effect>)
        requires
            old(self).wf(),
        ensures
            final(self).wf(),
            Self::same_tracking(*final(self), *old(self)),
            final(self).spec_bar() == old(self).spec_bar(),
            final(self).spec_workspaces().len() == old(self).spec_workspaces().len(),
            exists|a: int|
                #[trigger] old(self).active_choice(a) && only_changed(
                    old(self).spec_workspaces(),
                    final(self).spec_workspaces(),
                    a,
                ) && focused_along(old(self).spec_workspaces()[a], final(self).spec_workspaces()[a], direction)
                    && r@ == match final(self).spec_workspaces()[a].spec_focused() {
                    Some(f) => seq![
                        Effect::FocusWindow(crate::shape::window_of(final(self).spec_workspaces()[a].nodes(), f)),
                    ],
                    None => Seq::empty(),
                },
    {
        let mut effects: Vec<Effect> = Vec::new();
        let idx = self.active_workspace_idx();
        let ghost w0 = self.workspaces@;
        assert(w0[idx as int].wf());
        self.workspaces[idx].focus_neighbor(direction);
        proof {
            crate::state::lemma_all_wf_update(w0, idx as int, self.workspaces@[idx as int]);
            assert(self.workspaces@ =~= w0.update(idx as int, self.workspaces@[idx as int]));
        }
        assert(self.workspaces@[idx as int].wf());
        match self.workspaces[idx].focused_window_id() {
            Some(wid) => effects.push(Effect::FocusWindow(wid)),
            None => {},
        }
        assert(old(self).active_choice(idx as int));
        effects
    }

    /// Swap the focused window of the active workspace with its neighbour
    /// in `direction`, and lay the workspace out again.
    pub fn swap_command(&mut self, direction: Direction) -> (r: Vec<Effect>)
        requires
            old(self).wf(),
        ensures
            final(self).wf(),
            Self::same_tracking(*final(self), *old(self)),
            final(self).spec_bar() == old(self).spec_bar(),
            final(self).spec_workspaces().len() == old(self).spec_workspaces().len(),
            exists|a: int|
                #[trigger] old(self).active_choice(a) && only_changed(
                    old(self).spec_workspaces(),
                    final(self).spec_workspaces(),
                    a,
                ) && swapped_along(old(self).spec_workspaces()[a], final(self).spec_workspaces()[a], direction)
                    && r@.len() == 1 && (r@[0] matches Effect::ApplyLayout(i) && i == a),
    {
        let mut effects: Vec<Effect> = Vec::new();
        let idx = self.active_workspace_idx();
        let ghost w0 = self.workspaces@;
        assert(w0[idx as int].wf());
        self.workspaces[idx].swap_window(direction);
        proof {
            crate::state::lemma_all_wf_update(w0, idx as int, self.workspaces@[idx as int]);
            assert(self.workspaces@ =~= w0.update(idx as int, self.workspaces@[idx as int]));
        }
        effects.push(Effect::ApplyLayout(idx));
        assert(old(self).active_choice(idx as int));
        effects
    }

    /// Reserve the bar strip in the workspaces of display `primary` (and
    /// clear it elsewhere), laying every workspace out again.
    pub fn apply_bar_reservation(&mut self, primary: u32, displays: &[DisplayInfo]) -> (r: Vec<Effect>)
        requires
            old(self).wf(),
        ensures
            final(self).wf(),
            Self::same_tracking(*final(self), *old(self)),
            final(self).spec_bar() == old(self).spec_bar(),
            final(self).spec_workspaces().len() == old(self).spec_workspaces().len(),
            forall|i: int|
                0 <= i < old(self).spec_workspaces().len() ==> reserved_as(
                    #[trigger] old(self).spec_workspaces()[i],
                    final(self).spec_workspaces()[i],
                    reserve_for(old(self).spec_bar(), old(self).spec_workspaces()[i], primary, displays@),
                ),
            r@ == layout_all(old(self).spec_workspaces().len()),
    {
        let mut effects: Vec<Effect> = Vec::new();
        self.reserve_bar_strip(primary, displays, &mut effects);
        effects
    }

    /// The strip the bar reserves on display `primary`, or `None` while the
    /// bar is hidden or not spawned, or `displays` lacks the primary.
    pub fn bar_reserved_rect(&self, primary: u32, displays: &[DisplayInfo]) -> (r: Option<Rect>)
        ensures
            r == (if self.spec_bar().spec_visible() && self.spec_bar().spec_spawned() {
                strip_on(self.spec_bar().spec_config(), primary, displays@)
            } else {
                None
            }),
    {
        self.bar.reserved_rect(primary, displays)
    }

    /// The bar reservation, for update.
    pub fn bar_mut(&mut self) -> (r: &mut BarReserve)
        ensures
            *r == old(self).spec_bar(),
            final(self).spec_bar() == *final(r),
            final(self).spec_workspaces() == old(self).spec_workspaces(),
            final(self).spec_active() == old(self).spec_active(),
            final(self).spec_window_pids() == old(self).spec_window_pids(),
            final(self).spec_pid_windows() == old(self).spec_pid_windows(),
            final(self).spec_hidden() == old(self).spec_hidden(),
            final(self).spec_entries() == old(self).spec_entries(),
            final(self).wf() == old(self).wf(),
    {
        &mut self.bar
    }

    /// Put window `w` into workspace `idx` directly, with no routing or
    /// capacity check (nothing happens when its node ids are spent).
    pub fn add_window_at(&mut self, idx: usize, w: WindowId)
        requires
            old(self).wf(),
            idx < old(self).spec_workspaces().len(),
        ensures
            final(self).wf(),
            Self::same_tracking(*final(self), *old(self)),
            old(self).spec_workspaces()[idx as int].can_allocate() ==> joined(
                old(self).spec_workspaces(),
                final(self).spec_workspaces(),
                idx as int,
                w,
                old(self).spec_workspaces()[idx as int].spec_monocle(),
            ),
            !old(self).spec_workspaces()[idx as int].can_allocate() ==> final(self).spec_workspaces() == old(
                self,
            ).spec_workspaces(),
    {
        let ghost w0 = self.workspaces@;
        assert(w0[idx as int].wf());
        if !self.workspaces[idx].can_add_window() {
            return ;
        }
        self.workspaces[idx].add_window(w, None);
        proof {
            crate::state::lemma_all_wf_update(w0, idx as int, self.workspaces@[idx as int]);
            assert(self.workspaces@ =~= w0.update(idx as int, self.workspaces@[idx as int]));
            crate::workspace::law_added_window_is_held(
                self.workspaces@[idx as int],
                self.workspaces@[idx as int].spec_focused()->0,
                w,
            );
        }
    }

    /// Replace the windows recorded for app `pid`.
    pub fn set_app_windows(&mut self, pid: i32, windows: Vec<WindowId>)
        requires
            old(self).wf(),
        ensures
            final(self).wf(),
            Self::same_but_apps(*final(self), *old(self)),
            final(self).spec_window_pids() == old(self).spec_window_pids(),
            final(self).spec_pid_windows() == old(self).spec_pid_windows().insert(pid, windows@),
    {
        let ghost raw0 = self.pid_to_windows@;
        let ghost v = windows@;
        self.pid_to_windows.insert(pid, windows);
        assert(self.spec_pid_windows() =~= lists_view(raw0).insert(pid, v));
    }
}


/// A focus notification less than the debounce time after an explicit
/// workspace switch at `now` (which sets the debounce to
/// `debounce_until(now)`) is held: it does not change what a display shows.
pub proof fn law_switch_holds_stale_focus(now: u64, later: u64)
    requires
        now <= later,
        later < now + SWITCH_DEBOUNCE_MS,
        now + SWITCH_DEBOUNCE_MS <= u64::MAX,
    ensures
        focus_held(Some(debounce_until(now)), later),
{
}

proof fn lemma_remove_keeps_others(s: Seq<WindowId>, p: int, x: WindowId)
    requires
        0 <= p < s.len(),
        s[p] != x,
    ensures
        s.remove(p).contains(x) <==> s.contains(x),
{
    if s.contains(x) {
        let i = choose|i: int| 0 <= i < s.len() && s[i] == x;
        if i < p {
            assert(s.remove(p)[i] == x);
        } else {
            assert(s.remove(p)[i - 1] == x);
        }
    }
    if s.remove(p).contains(x) {
        let i = choose|i: int| 0 <= i < s.remove(p).len() && s.remove(p)[i] == x;
        if i < p {
            assert(s[i] == x);
        } else {
            assert(s[i + 1] == x);
        }
    }
}

/// Moving the focused window of workspace `a` towards workspace `target`
/// leaves every other window in the workspaces that held it, and the moved
/// window, when it moves, is held by the workspace it lands in.
pub proof fn law_move_keeps_other_windows(
    before: Seq<Workspace>,
    after: Seq<Workspace>,
    a: int,
    target: int,
    max: nat,
    x: WindowId,
    j: int,
)
    requires
        0 <= a < before.len(),
        0 <= target < before.len(),
        0 <= j < before.len(),
        focused_moved(before, after, a, target, max),
        before[a].spec_focused() matches Some(f) ==> x != crate::shape::window_of(before[a].nodes(), f),
    ensures
        after[j].window_seq().contains(x) <==> before[j].window_seq().contains(x),
        a != target && before[a].spec_focused() is Some ==> match landing(before, target, max) {
            Some(d) => before[d as int].can_allocate() ==> after[d as int].window_seq().contains(
                crate::shape::window_of(before[a].nodes(), before[a].spec_focused()->0),
            ),
            None => true,
        },
{
    if a == target || before[a].spec_focused() is None {
        return ;
    }
    let wid = crate::shape::window_of(before[a].nodes(), before[a].spec_focused()->0);
    match landing(before, target, max) {
        None => {},
        Some(d) => {
            if before[d as int].can_allocate() {
                if d as int != a {
                    if j == d as int {
                        assert(after[j].window_seq() == before[j].window_seq().push(wid));
                        assert(after[j].window_seq().last() == wid);
                        assert(after[j].window_seq().contains(x) <==> before[j].window_seq().contains(x)) by {
                            if before[j].window_seq().contains(x) {
                                let i = choose|i: int| 0 <= i < before[j].window_seq().len() && before[j].window_seq()[i] == x;
                                assert(after[j].window_seq()[i] == x);
                            }
                            if after[j].window_seq().contains(x) {
                                let i = choose|i: int| 0 <= i < after[j].window_seq().len() && after[j].window_seq()[i] == x;
                                assert(before[j].window_seq()[i] == x);
                            }
                        }
                    } else if j == a && has_window(before[a], wid) {
                        let p = choose|p: int|
                            0 <= p < before[a].window_seq().len() && before[a].window_seq()[p] == wid && after[a].window_seq()
                                == #[trigger] before[a].window_seq().remove(p);
                        lemma_remove_keeps_others(before[a].window_seq(), p, x);
                    }
                    let dd = d as int;
                    assert(after[dd].window_seq()[after[dd].window_seq().len() - 1] == wid);
                } else {
                    let s = before[a].window_seq();
                    let t = after[a].window_seq();
                    if j == a {
                        let u = if has_window(before[a], wid) {
                            let p = choose|p: int|
                                0 <= p < s.len() && s[p] == wid && t == #[trigger] s.remove(p).push(wid);
                            lemma_remove_keeps_others(s, p, x);
                            s.remove(p)
                        } else {
                            s
                        };
                        assert(t == u.push(wid));
                        assert(t.contains(x) <==> u.contains(x)) by {
                            if u.contains(x) {
                                let i = choose|i: int| 0 <= i < u.len() && u[i] == x;
                                assert(t[i] == x);
                            }
                            if t.contains(x) {
                                let i = choose|i: int| 0 <= i < t.len() && t[i] == x;
                                assert(u[i] == x);
                            }
                        }
                    }
                    assert(t[t.len() - 1] == wid);
                }
            }
        },
    }
}

/// A window that is placed never fills its workspace past the tile
/// capacity, and lands on the display of the workspace it preferred.
pub proof fn law_placement_respects_capacity(
    before: Seq<Workspace>,
    after: Seq<Workspace>,
    w: WindowId,
    preferred: int,
    max: nat,
    restricted: bool,
    r: Option<usize>,
)
    requires
        0 <= preferred < before.len() <= usize::MAX,
        placed(before, after, w, preferred, max, restricted, r),
        !has_window(before[preferred], w),
        r is Some,
    ensures
        0 <= r->0 < after.len(),
        after[r->0 as int].window_seq().len() <= max,
        after[r->0 as int].spec_monitor_id() == before[preferred].spec_monitor_id(),
{
    if before[preferred].window_seq().len() >= max {
        crate::state::router::law_capacity_pick_has_room(before, preferred, max, 1);
    }
}

/// A window hidden from workspace `i` (as `on_window_hidden` remembers it)
/// prefers `i` again when it is shown (as `on_window_shown` places it),
/// while `i` is still a workspace index.
pub proof fn law_shown_returns_to_hidden_workspace(
    ws: Seq<Workspace>,
    hidden: Map<WindowId, usize>,
    w: WindowId,
    i: usize,
    a: int,
    entries: Seq<WorkspaceEntry>,
    bundle: Option<Seq<char>>,
    name: Option<Seq<char>>,
)
    requires
        i < ws.len(),
    ensures
        return_to(ws, hidden.insert(w, i), w, a, entries, bundle, name) == i,
{
}

proof fn lemma_drop_window_drops(s: Seq<WindowId>, w: WindowId)
    ensures
        !drop_window(s, w).contains(w),
    decreases s.len(),
{
    if s.len() > 0 {
        lemma_drop_window_drops(s.drop_last(), w);
        let pre = drop_window(s.drop_last(), w);
        if s.last() != w {
            assert forall|k: int| 0 <= k < pre.len() + 1 implies pre.push(s.last())[k] != w by {
                if k < pre.len() {
                    assert(pre.push(s.last())[k] == pre[k]);
                }
            }
        }
    }
}

/// Once a window is destroyed, no app's window list holds it any more.
pub proof fn law_destroyed_window_leaves_every_list(lists: Map<i32, Seq<WindowId>>, w: WindowId)
    ensures
        forall|p: i32| #[trigger] lists_without(lists, w).contains_key(p) ==> !lists_without(lists, w)[p].contains(w),
{
    assert forall|p: i32| #[trigger] lists_without(lists, w).contains_key(p) implies !lists_without(
        lists,
        w,
    )[p].contains(w) by {
        lemma_drop_window_drops(lists[p], w);
    }
}

/// Once an app quits, none of its windows is tracked any more.
pub proof fn law_terminated_app_leaves_no_window(pids: Map<WindowId, i32>, gone: Seq<WindowId>)
    ensures
        forall|k: int| 0 <= k < gone.len() ==> !pids_without(pids, gone).contains_key(#[trigger] gone[k]),
{
}


/// Removing one window from a workspace leaves every other window held.
proof fn lemma_still_held(before: Seq<Workspace>, after: Seq<Workspace>, i: int, w: WindowId, x: WindowId)
    requires
        all_wf(before),
        all_wf(after),
        0 <= i < before.len(),
        removed_at(before, after, i, w),
        x != w,
        workspace_of(before, x) is Some,
    ensures
        workspace_of(after, x) is Some,
{
    crate::state::lemma_workspace_of_facts(before, x);
    crate::state::lemma_workspace_of_facts(after, x);
    let j = workspace_of(before, x)->0;
    if j == i {
        assert(before[i].wf());
        assert(after[i].wf());
        crate::workspace::lemma_has_window_seq(before[i], x);
        crate::workspace::lemma_has_window_seq(after[i], x);
        let s0 = before[i].window_seq();
        let p = choose|p: int|
            0 <= p < s0.len() && s0[p] == w && after[i].window_seq() == #[trigger] s0.remove(p);
        let q = choose|q: int| 0 <= q < s0.len() && s0[q] == x;
        assert(q != p);
        if q < p {
            assert(s0.remove(p)[q] == x);
        } else {
            assert(s0.remove(p)[q - 1] == x);
        }
        assert(has_window(after[i], x));
    } else {
        assert(after[j] == before[j]);
    }
}


/// Display `b` lies wholly beyond display `a` on `a`'s `direction` side,
/// centred on the same line as `a`. Screen coordinates: y grows downward,
/// so a display above has the smaller y.
pub open spec fn lies_beyond(b: DisplayInfo, a: DisplayInfo, direction: Direction) -> bool {
    let same_column = 2 * b.origin.0 + b.size.0 == 2 * a.origin.0 + a.size.0;
    let same_row = 2 * b.origin.1 + b.size.1 == 2 * a.origin.1 + a.size.1;
    match direction {
        Direction::Up => same_column && b.origin.1 + b.size.1 <= a.origin.1,
        Direction::Down => same_column && a.origin.1 + a.size.1 <= b.origin.1,
        Direction::Left => same_row && b.origin.0 + b.size.0 <= a.origin.0,
        Direction::Right => same_row && a.origin.0 + a.size.0 <= b.origin.0,
    }
}

/// The direction pointing the other way.
pub open spec fn opposite(direction: Direction) -> Direction {
    match direction {
        Direction::Left => Direction::Right,
        Direction::Right => Direction::Left,
        Direction::Up => Direction::Down,
        Direction::Down => Direction::Up,
    }
}

/// Centre `c` lies on the `direction` side of centre `f`: a smaller y for
/// up, a larger y for down, a smaller x for left, a larger x for right.
pub open spec fn on_side(c: (int, int), f: (int, int), direction: Direction) -> bool {
    match direction {
        Direction::Up => c.1 < f.1,
        Direction::Down => c.1 > f.1,
        Direction::Left => c.0 < f.0,
        Direction::Right => c.0 > f.0,
    }
}

/// With two displays, `b` lying wholly beyond `a` on one side and centred
/// on the same line (a display stacked directly above `a` is the one to go
/// to for up), looking from `a` that way finds `b`, and looking the
/// opposite way finds nothing.
pub proof fn law_neighbour_display_found(displays: Seq<DisplayInfo>, a: DisplayInfo, b: DisplayInfo, direction: Direction)
    requires
        displays == seq![a, b],
        a.id != b.id,
        a.size.0 > 0,
        a.size.1 > 0,
        lies_beyond(b, a, direction),
    ensures
        forall|r: Option<u32>| #[trigger] in_direction(displays, a.id, direction, r) <==> r == Some(b.id),
        forall|r: Option<u32>| #[trigger] in_direction(displays, a.id, opposite(direction), r) <==> r is None,
{
    let ds = displays;
    assert(ds.len() == 2 && ds[0] == a && ds[1] == b);
    assert(ds.drop_first()[0] == b);
    assert(crate::adapter::display_with_id(ds, a.id) == Some(a));
    assert(candidate(ds[1], a, a.id, direction));
    assert(!candidate(ds[1], a, a.id, opposite(direction)));
    assert(!candidate(ds[0], a, a.id, direction));
    assert(!candidate(ds[0], a, a.id, opposite(direction)));
    assert(nearest_at(ds, 1, a, a.id, direction));
    assert forall|r: Option<u32>| #[trigger] in_direction(ds, a.id, direction, r) <==> r == Some(b.id) by {
        if r == Some(b.id) {
            assert(ds[1].id == b.id);
            assert(!(forall|k: int| 0 <= k < ds.len() ==> !candidate(#[trigger] ds[k], a, a.id, direction)));
        }
        if in_direction(ds, a.id, direction, r) {
            assert(!(forall|k: int| 0 <= k < ds.len() ==> !candidate(#[trigger] ds[k], a, a.id, direction)));
            let id = r->0;
            let k = choose|k: int|
                0 <= k < ds.len() && #[trigger] ds[k].id == id && nearest_at(ds, k, a, a.id, direction);
            assert(k == 1);
        }
    }
    assert forall|r: Option<u32>| #[trigger] in_direction(ds, a.id, opposite(direction), r) <==> r is None by {
        assert forall|k: int| 0 <= k < ds.len() implies !candidate(#[trigger] ds[k], a, a.id, opposite(direction)) by {
            if k == 0 {
            } else {
                assert(k == 1);
            }
        }
    }
}

/// Whatever looking from a display in a direction finds is another
/// display whose centre lies on that side of the starting display's
/// centre.
pub proof fn law_found_display_lies_that_way(displays: Seq<DisplayInfo>, from_id: u32, direction: Direction, id: u32)
    requires
        in_direction(displays, from_id, direction, Some(id)),
    ensures
        display_with_id_is_some(displays, from_id),
        exists|k: int|
            0 <= k < displays.len() && #[trigger] displays[k].id == id && id != from_id && on_side(
                doubled_center(displays[k]),
                doubled_center(crate::adapter::display_with_id(displays, from_id)->0),
                direction,
            ),
{
    let from = crate::adapter::display_with_id(displays, from_id)->0;
    let k = choose|k: int|
        0 <= k < displays.len() && #[trigger] displays[k].id == id && nearest_at(displays, k, from, from_id, direction);
    assert(candidate(displays[k], from, from_id, direction));
    assert(on_side(doubled_center(displays[k]), doubled_center(from), direction));
}

} // verus!

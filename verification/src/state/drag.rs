//! Drag-to-swap: the window being dragged, the tiled window under it, and
//! the two timers that decide between swapping the pair and snapping the
//! dragged window back. The tracker only decides; the caller swaps and lays
//! out. Times are milliseconds on one clock.
use vstd::prelude::*;

use crate::state::{all_wf, find_workspace_for_window, workspace_of};
use crate::tree::WindowId;
use crate::workspace::Workspace;

verus! {

/// How long the dragged window must stay over the same target before the
/// two swap.
pub const SWAP_HOLD_MS: u64 = 2000;

/// How long without movement, with no target, before the drag ends and the
/// window snaps back.
pub const DRAG_IDLE_MS: u64 = 500;

/// What the caller should do after a tick.
#[derive(Debug, Clone, Copy, PartialEq, Eq, Structural)]
pub enum DragTickAction {
    /// Swap `drag` and `target` in workspace `workspace_idx`.
    Swap { workspace_idx: usize, drag: WindowId, target: WindowId },
    /// No target and the idle timeout passed: lay the workspace out again.
    SnapBack { workspace_idx: usize },
    Nothing,
}

/// The tracker's state: the dragged window, the window under it, since when
/// that target has been under it, and when the drag last moved.
#[derive(Debug, Clone, Copy, PartialEq, Eq, Structural)]
pub struct DragView {
    pub drag_window: Option<WindowId>,
    pub overlap_target: Option<WindowId>,
    pub overlap_start: Option<u64>,
    pub last_move: Option<u64>,
}

/// No drag in progress.
pub open spec fn idle_view() -> DragView {
    DragView { drag_window: None, overlap_target: None, overlap_start: None, last_move: None }
}

/// `now` is at least `ms` after `since` (a `now` before `since` counts as no
/// time passed).
pub open spec fn elapsed(since: u64, now: u64, ms: u64) -> bool {
    now >= since && now - since >= ms
}

/// The state after a move of `window_id` at `now`. `hit` is `None` when the
/// window has no laid-out rect, else the window its centre is over.
pub open spec fn moved_spec(d: DragView, window_id: WindowId, hit: Option<Option<WindowId>>, tiled: bool, now: u64) -> DragView {
    let d1 = DragView { drag_window: Some(window_id), last_move: Some(now), ..d };
    if !tiled || hit is None {
        d1
    } else {
        match hit->0 {
            Some(nt) => if d.overlap_target == Some(nt) {
                d1
            } else {
                DragView { overlap_target: Some(nt), overlap_start: Some(now), ..d1 }
            },
            None => DragView { overlap_target: None, overlap_start: None, ..d1 },
        }
    }
}

/// The state and the action after a tick at `now`.
pub open spec fn tick_spec(d: DragView, now: u64, ws: Seq<Workspace>, active_idx: usize) -> (DragView, DragTickAction) {
    if d.drag_window is Some && d.overlap_target is Some && d.overlap_start is Some && elapsed(
        d.overlap_start->0,
        now,
        SWAP_HOLD_MS,
    ) {
        match workspace_of(ws, d.drag_window->0) {
            Some(i) => (
                idle_view(),
                DragTickAction::Swap {
                    workspace_idx: i as usize,
                    drag: d.drag_window->0,
                    target: d.overlap_target->0,
                },
            ),
            None => (idle_view(), DragTickAction::Nothing),
        }
    } else if d.last_move is Some && d.overlap_target is None && elapsed(d.last_move->0, now, DRAG_IDLE_MS) {
        if d.drag_window is Some {
            (idle_view(), DragTickAction::SnapBack { workspace_idx: active_idx })
        } else {
            (idle_view(), DragTickAction::Nothing)
        }
    } else {
        (d, DragTickAction::Nothing)
    }
}

/// Drag-to-swap state.
pub struct DragState {
    drag_window: Option<WindowId>,
    overlap_target: Option<WindowId>,
    overlap_start: Option<u64>,
    last_move: Option<u64>,
}

impl View for DragState {
    type V = DragView;

    closed spec fn view(&self) -> DragView {
        DragView {
            drag_window: self.drag_window,
            overlap_target: self.overlap_target,
            overlap_start: self.overlap_start,
            last_move: self.last_move,
        }
    }
}

impl DragState {
    /// No drag in progress.
    pub fn new() -> (r: Self)
        ensures
            r@ == idle_view(),
    {
        Self { drag_window: None, overlap_target: None, overlap_start: None, last_move: None }
    }

    pub fn drag_window(&self) -> (r: Option<WindowId>)
        ensures
            r == self@.drag_window,
    {
        self.drag_window
    }

    pub fn overlap_target(&self) -> (r: Option<WindowId>)
        ensures
            r == self@.overlap_target,
    {
        self.overlap_target
    }

    /// No window is being dragged.
    pub fn is_idle(&self) -> (r: bool)
        ensures
            r == (self@.drag_window is None),
    {
        self.drag_window.is_none()
    }

    /// End the drag.
    pub fn clear(&mut self)
        ensures
            final(self)@ == idle_view(),
    {
        self.drag_window = None;
        self.overlap_target = None;
        self.overlap_start = None;
        self.last_move = None;
    }

    /// A move of `window_id` at `now`. The drag and its last move are always
    /// recorded. When the window is tiled and has a laid-out rect (`hit` is
    /// `Some`), `hit`'s value is the window its centre is now over: a new
    /// target restarts the hold timer, the same target keeps it, none clears
    /// it.
    pub fn on_moved(
        &mut self,
        window_id: WindowId,
        hit: Option<Option<WindowId>>,
        workspaces: &Vec<Workspace>,
        now: u64,
    )
        requires
            all_wf(workspaces@),
        ensures
            final(self)@ == moved_spec(old(self)@, window_id, hit, workspace_of(workspaces@, window_id) is Some, now),
    {
        self.drag_window = Some(window_id);
        self.last_move = Some(now);
        if find_workspace_for_window(workspaces, window_id).is_none() {
            return ;
        }
        let new_target = match hit {
            Some(t) => t,
            None => return ,
        };
        match new_target {
            Some(nt) => {
                if self.overlap_target == Some(nt) {
                } else {
                    self.overlap_target = Some(nt);
                    self.overlap_start = Some(now);
                }
            },
            None => {
                self.overlap_target = None;
                self.overlap_start = None;
            },
        }
    }

    /// Called periodically. After the dragged window has stayed over one
    /// target for `SWAP_HOLD_MS`, the pair is to be swapped in the dragged
    /// window's workspace; with no target and no movement for
    /// `DRAG_IDLE_MS`, the active workspace snaps back. The tracker clears
    /// itself whenever the hold or the idle timeout has passed.
    pub fn on_tick(&mut self, now: u64, workspaces: &Vec<Workspace>, active_workspace_idx: usize) -> (r:
        DragTickAction)
        requires
            all_wf(workspaces@),
        ensures
            (final(self)@, r) == tick_spec(old(self)@, now, workspaces@, active_workspace_idx),
    {
        if let (Some(drag), Some(target)) = (self.drag_window, self.overlap_target) {
            if let Some(start) = self.overlap_start {
                if now >= start && now - start >= SWAP_HOLD_MS {
                    if let Some(ws_idx) = find_workspace_for_window(workspaces, drag) {
                        let action = DragTickAction::Swap { workspace_idx: ws_idx, drag, target };
                        self.clear();
                        return action;
                    }
                    self.clear();
                    return DragTickAction::Nothing;
                }
            }
        }
        if let Some(last_move) = self.last_move {
            if self.overlap_target.is_none() && now >= last_move && now - last_move >= DRAG_IDLE_MS {
                if self.drag_window.is_some() {
                    let action = DragTickAction::SnapBack { workspace_idx: active_workspace_idx };
                    self.clear();
                    return action;
                }
                self.clear();
            }
        }
        DragTickAction::Nothing
    }
}

impl Default for DragState {
    fn default() -> (r: Self)
        ensures
            r@ == idle_view(),
    {
        Self::new()
    }
}

/// Whenever a tick asks for a swap or a snap-back, the drag is over: the
/// tracker is idle afterwards.
pub proof fn law_tick_action_ends_drag(d: DragView, now: u64, ws: Seq<Workspace>, active_idx: usize)
    ensures
        tick_spec(d, now, ws, active_idx).1 != DragTickAction::Nothing ==> tick_spec(d, now, ws, active_idx).0
            == idle_view(),
{
}

/// The idle timeout never ends a drag that has a target: with a target, a
/// tick before the hold time has passed changes nothing.
pub proof fn law_no_snap_back_while_targeting(d: DragView, now: u64, ws: Seq<Workspace>, active_idx: usize)
    requires
        d.overlap_target is Some,
        !(d.overlap_start matches Some(s) && elapsed(s, now, SWAP_HOLD_MS)),
    ensures
        tick_spec(d, now, ws, active_idx) == (d, DragTickAction::Nothing),
{
}

} // verus!

//! The status bar's reservation: the strip of the primary display kept free
//! for the bar, which exists only while the bar is both visible and spawned.
use vstd::prelude::*;

use crate::adapter::{display_with_id, find_display, DisplayInfo};
use crate::config::BarConfig;
use crate::layout::{bar_strip_rect, strip_spec, Rect};
use crate::state::all_wf;
use crate::workspace::Workspace;

verus! {

/// What the caller should do after a visibility toggle.
#[derive(Debug, Clone, Copy, PartialEq, Eq, Structural)]
pub enum ToggleAction {
    /// Show the bar (the caller fills in the rect from `reserved_rect`).
    Show(Option<Rect>),
    Hide,
    Noop,
}

/// What a configuration reload asks of the caller.
#[derive(Debug, Clone, Copy, PartialEq, Eq, Structural)]
pub enum ReloadAction {
    /// The bar was enabled but never spawned: a restart is needed.
    NeedsRestart,
    /// The bar was disabled while running: tell it to exit.
    ShouldExit,
    /// Re-apply the reservation.
    Reapply,
}

/// The bar configuration and whether the bar is visible and spawned.
pub struct BarReserve {
    config: BarConfig,
    visible: bool,
    spawned: bool,
}

/// The strip a bar of `config` takes on display `id` of `displays`.
pub open spec fn strip_on(config: BarConfig, id: u32, displays: Seq<DisplayInfo>) -> Option<Rect> {
    match display_with_id(displays, id) {
        Some(d) => Some(
            strip_spec(
                d.origin,
                d.size,
                config.position,
                if config.thickness < 1 {
                    1
                } else {
                    config.thickness as int
                },
            ),
        ),
        None => None,
    }
}

/// `after` is `before` with its reservation set to `want`.
pub open spec fn reserved_as(before: Workspace, after: Workspace, want: Option<Rect>) -> bool {
    &&& after.wf()
    &&& after.spec_reserved() == want
    &&& after.spec_monitor_origin() == before.spec_monitor_origin()
    &&& after.spec_monitor_size() == before.spec_monitor_size()
    &&& after.spec_name() == before.spec_name()
    &&& after.spec_monitor_id() == before.spec_monitor_id()
    &&& after.spec_monocle() == before.spec_monocle()
    &&& after.nodes() == before.nodes()
    &&& after.spec_root() == before.spec_root()
    &&& after.spec_focused() == before.spec_focused()
    &&& after.spec_pending() == before.spec_pending()
    &&& after.spec_next_id() == before.spec_next_id()
}

impl BarReserve {
    pub closed spec fn spec_config(&self) -> BarConfig {
        self.config
    }

    pub closed spec fn spec_visible(&self) -> bool {
        self.visible
    }

    pub closed spec fn spec_spawned(&self) -> bool {
        self.spawned
    }

    /// Visible when the configuration says so and the bar was spawned.
    pub fn new(config: BarConfig, spawned: bool) -> (r: Self)
        ensures
            r.spec_config() == config,
            r.spec_spawned() == spawned,
            r.spec_visible() == (config.visible && spawned),
    {
        let visible = config.visible && spawned;
        Self { config, visible, spawned }
    }

    /// A reservation in the given state.
    pub fn with_state(config: BarConfig, visible: bool, spawned: bool) -> (r: Self)
        ensures
            r.spec_config() == config,
            r.spec_spawned() == spawned,
            r.spec_visible() == visible,
    {
        Self { config, visible, spawned }
    }

    pub fn is_visible(&self) -> (r: bool)
        ensures
            r == self.spec_visible(),
    {
        self.visible
    }

    pub fn is_spawned(&self) -> (r: bool)
        ensures
            r == self.spec_spawned(),
    {
        self.spawned
    }

    pub fn config(&self) -> (r: &BarConfig)
        ensures
            *r == self.spec_config(),
    {
        &self.config
    }

    /// The configuration, for update.
    pub fn config_mut(&mut self) -> (r: &mut BarConfig)
        ensures
            *r == old(self).spec_config(),
            final(self).spec_config() == *final(r),
            final(self).spec_visible() == old(self).spec_visible(),
            final(self).spec_spawned() == old(self).spec_spawned(),
    {
        &mut self.config
    }

    /// Record whether the bar process runs; a bar that does not is hidden.
    pub fn set_spawned(&mut self, spawned: bool)
        ensures
            final(self).spec_spawned() == spawned,
            final(self).spec_visible() == (old(self).spec_visible() && spawned),
            final(self).spec_config() == old(self).spec_config(),
    {
        self.spawned = spawned;
        if !spawned {
            self.visible = false;
        }
    }

    pub fn set_visible(&mut self, visible: bool)
        ensures
            final(self).spec_visible() == visible,
            final(self).spec_spawned() == old(self).spec_spawned(),
            final(self).spec_config() == old(self).spec_config(),
    {
        self.visible = visible;
    }

    /// Replace the configuration; visibility follows it, gated on spawn.
    pub fn update_config(&mut self, config: BarConfig)
        ensures
            final(self).spec_config() == config,
            final(self).spec_spawned() == old(self).spec_spawned(),
            final(self).spec_visible() == (config.visible && old(self).spec_spawned()),
    {
        self.config = config;
        self.visible = self.config.visible && self.spawned;
    }

    /// The strip on the primary display, or `None` when the bar is hidden,
    /// not spawned, or `displays` lacks the primary.
    pub fn reserved_rect(&self, primary: u32, displays: &[DisplayInfo]) -> (r: Option<Rect>)
        ensures
            r == if self.spec_visible() && self.spec_spawned() {
                strip_on(self.spec_config(), primary, displays@)
            } else {
                None
            },
    {
        if !self.visible || !self.spawned {
            return None;
        }
        let display = match find_display(displays, primary) {
            Some(d) => d,
            None => return None,
        };
        Some(bar_strip_rect(display.origin, display.size, self.config.position, self.config.thickness))
    }

    /// Reserve the strip in every workspace of the primary display and
    /// clear it everywhere else. Returns every workspace index, for layout.
    pub fn apply_reservation(&self, workspaces: &mut Vec<Workspace>, primary: u32, displays: &[DisplayInfo]) -> (r:
        Vec<usize>)
        requires
            all_wf(old(workspaces)@),
        ensures
            all_wf(final(workspaces)@),
            final(workspaces)@.len() == old(workspaces)@.len(),
            forall|i: int|
                0 <= i < old(workspaces)@.len() ==> reserved_as(
                    #[trigger] old(workspaces)@[i],
                    final(workspaces)@[i],
                    if old(workspaces)@[i].spec_monitor_id() == primary {
                        if self.spec_visible() && self.spec_spawned() {
                            strip_on(self.spec_config(), primary, displays@)
                        } else {
                            None
                        }
                    } else {
                        None
                    },
                ),
            r@ == Seq::new(old(workspaces)@.len(), |i: int| i as usize),
    {
        let rect = self.reserved_rect(primary, displays);
        let ghost w0 = workspaces@;
        let mut affected: Vec<usize> = Vec::new();
        let mut i: usize = 0;
        while i < workspaces.len()
            invariant
                workspaces@.len() == w0.len(),
                all_wf(w0),
                all_wf(workspaces@),
                i <= w0.len(),
                forall|j: int| i <= j < w0.len() ==> workspaces@[j] == w0[j],
                forall|j: int|
                    0 <= j < i ==> reserved_as(
                        #[trigger] w0[j],
                        workspaces@[j],
                        if w0[j].spec_monitor_id() == primary {
                            rect
                        } else {
                            None
                        },
                    ),
                affected@ == Seq::new(i as nat, |j: int| j as usize),
            decreases w0.len() - i,
        {
            assert(workspaces@[i as int].wf());
            let want = if workspaces[i].monitor_id() == primary {
                rect
            } else {
                None
            };
            workspaces[i].set_reserved_rect(want);
            affected.push(i);
            i = i + 1;
            assert(affected@ =~= Seq::new(i as nat, |j: int| j as usize));
        }
        affected
    }

    /// Flip visibility; nothing happens when the bar was never spawned.
    pub fn toggle(&mut self) -> (r: ToggleAction)
        ensures
            final(self).spec_config() == old(self).spec_config(),
            final(self).spec_spawned() == old(self).spec_spawned(),
            !old(self).spec_spawned() ==> r == ToggleAction::Noop && final(self).spec_visible() == old(self).spec_visible(),
            old(self).spec_spawned() ==> final(self).spec_visible() == !old(self).spec_visible(),
            old(self).spec_spawned() && final(self).spec_visible() ==> r == ToggleAction::Show(None),
            old(self).spec_spawned() && !final(self).spec_visible() ==> r == ToggleAction::Hide,
    {
        if !self.spawned {
            return ToggleAction::Noop;
        }
        self.visible = !self.visible;
        if self.visible {
            ToggleAction::Show(None)
        } else {
            ToggleAction::Hide
        }
    }

    /// Take a reloaded configuration: a bar newly enabled needs a restart to
    /// spawn, a bar newly disabled should exit (both leave it hidden and not
    /// spawned); otherwise visibility follows the new configuration.
    pub fn on_reload(&mut self, new_config: BarConfig) -> (r: ReloadAction)
        ensures
            final(self).spec_config() == new_config,
            new_config.enabled && !old(self).spec_spawned() ==> r == ReloadAction::NeedsRestart
                && !final(self).spec_spawned() && !final(self).spec_visible(),
            !new_config.enabled && old(self).spec_spawned() ==> r == ReloadAction::ShouldExit
                && !final(self).spec_spawned() && !final(self).spec_visible(),
            new_config.enabled == old(self).spec_spawned() ==> r == ReloadAction::Reapply,
            new_config.enabled == old(self).spec_spawned() ==> final(self).spec_spawned() == old(self).spec_spawned(),
            new_config.enabled == old(self).spec_spawned() ==> final(self).spec_visible() == (new_config.visible
                && old(self).spec_spawned()),
    {
        let was_spawned = self.spawned;
        let new_enabled = new_config.enabled;
        let new_visible = new_config.visible;
        self.config = new_config;
        if new_enabled && !was_spawned {
            self.spawned = false;
            self.visible = false;
            return ReloadAction::NeedsRestart;
        }
        if !new_enabled && was_spawned {
            self.spawned = false;
            self.visible = false;
            return ReloadAction::ShouldExit;
        }
        self.visible = new_visible && self.spawned;
        ReloadAction::Reapply
    }
}

/// Once the bar is spawned, toggling twice restores its visibility (and
/// changes nothing else); toggling a bar that was never spawned changes
/// nothing.
pub proof fn law_toggle_twice_restores(a: BarReserve, b: BarReserve, c: BarReserve)
    requires
        b.spec_config() == a.spec_config() && b.spec_spawned() == a.spec_spawned(),
        c.spec_config() == b.spec_config() && c.spec_spawned() == b.spec_spawned(),
        a.spec_spawned() ==> b.spec_visible() == !a.spec_visible(),
        !a.spec_spawned() ==> b.spec_visible() == a.spec_visible(),
        b.spec_spawned() ==> c.spec_visible() == !b.spec_visible(),
        !b.spec_spawned() ==> c.spec_visible() == b.spec_visible(),
    ensures
        c.spec_visible() == a.spec_visible(),
        c.spec_config() == a.spec_config(),
        c.spec_spawned() == a.spec_spawned(),
{
}

/// No phantom gap: a bar that is hidden or was never spawned reserves
/// nothing.
pub proof fn law_no_reservation_without_bar(b: BarReserve, primary: u32, displays: Seq<DisplayInfo>)
    requires
        !b.spec_visible() || !b.spec_spawned(),
    ensures
        (if b.spec_visible() && b.spec_spawned() {
            strip_on(b.spec_config(), primary, displays)
        } else {
            None
        }) is None,
{
}

} // verus!

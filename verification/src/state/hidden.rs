//! Minimized or app-hidden windows: they leave the tiling tree but are
//! remembered with the workspace they came from, so that they can be retiled
//! there when they are shown again.
use std::collections::HashMap;
use vstd::prelude::*;

use crate::state::{all_wf, find_workspace_for_window, remove_window_at, removed_at, workspace_of};
use crate::tree::WindowId;
use crate::workspace::Workspace;

verus! {

broadcast use vstd::std_specs::hash::group_hash_axioms;

/// How long, in milliseconds, reconciliation waits between two runs.
pub const RECONCILE_INTERVAL_MS: u64 = 1000;

/// A clock reading `now` moved back by two seconds and the reconciliation
/// interval, stopping at zero.
pub open spec fn backdated(now: u64) -> u64 {
    if now >= 2000 + RECONCILE_INTERVAL_MS {
        (now - (2000 + RECONCILE_INTERVAL_MS)) as u64
    } else {
        0
    }
}

/// Reads the wall clock (`std::time::SystemTime::now`) as milliseconds since
/// the Unix epoch. Nothing is promised of the value: it depends on the
/// machine's clock.
#[verifier::external_body]
pub(crate) fn now_millis() -> (r: u64) {
    match std::time::SystemTime::now().duration_since(std::time::UNIX_EPOCH) {
        Ok(d) => d.as_millis() as u64,
        Err(_) => 0,
    }
}

/// Hidden windows and the workspace index each one left, plus the time (in
/// milliseconds) of the last reconciliation.
pub struct HiddenTracker {
    hidden: HashMap<WindowId, usize>,
    last_reconcile: u64,
}

impl HiddenTracker {
    /// The remembered windows and their workspace indices.
    pub closed spec fn spec_hidden(&self) -> Map<WindowId, usize> {
        self.hidden@
    }

    /// When reconciliation last ran, in milliseconds.
    pub closed spec fn spec_last_reconcile(&self) -> u64 {
        self.last_reconcile
    }

    /// An empty tracker whose reconciliation clock starts now.
    pub fn new() -> (r: Self)
        ensures
            r.spec_hidden() == Map::<WindowId, usize>::empty(),
    {
        Self::with_last_reconcile(now_millis())
    }

    /// An empty tracker whose last reconciliation happened at `last`.
    pub fn with_last_reconcile(last: u64) -> (r: Self)
        ensures
            r.spec_hidden() == Map::<WindowId, usize>::empty(),
            r.spec_last_reconcile() == last,
    {
        let r = Self { hidden: HashMap::new(), last_reconcile: last };
        assert(r.spec_hidden() =~= Map::<WindowId, usize>::empty());
        r
    }

    pub fn set_last_reconcile(&mut self, t: u64)
        ensures
            final(self).spec_last_reconcile() == t,
            final(self).spec_hidden() == old(self).spec_hidden(),
    {
        self.last_reconcile = t;
    }

    /// Move the last reconciliation far enough into the past that the next
    /// check at the current time is due: it becomes the clock reading moved
    /// back by two seconds and the interval (zero for an earlier reading).
    pub fn force_due(&mut self)
        ensures
            final(self).spec_hidden() == old(self).spec_hidden(),
            exists|now: u64| final(self).spec_last_reconcile() == #[trigger] backdated(now),
    {
        let now = now_millis();
        self.last_reconcile = now.saturating_sub(2000 + RECONCILE_INTERVAL_MS);
        assert(self.last_reconcile == backdated(now));
    }

    pub fn contains(&self, window_id: WindowId) -> (r: bool)
        ensures
            r == self.spec_hidden().contains_key(window_id),
    {
        self.hidden.contains_key(&window_id)
    }

    /// The workspace index remembered for `window_id`.
    pub fn get(&self, window_id: WindowId) -> (r: Option<usize>)
        ensures
            r == (if self.spec_hidden().contains_key(window_id) {
                Some(self.spec_hidden()[window_id])
            } else {
                None
            }),
    {
        match self.hidden.get(&window_id) {
            Some(idx) => Some(*idx),
            None => None,
        }
    }

    pub fn len(&self) -> (r: usize)
        ensures
            r == self.spec_hidden().len(),
            self.spec_hidden().dom().finite(),
    {
        self.hidden.len()
    }

    pub fn is_empty(&self) -> (r: bool)
        ensures
            r == (self.spec_hidden().len() == 0),
    {
        self.hidden.len() == 0
    }

    /// Remove a tiled window from the first workspace holding it and remember
    /// that workspace. Returns its index; `None`, changing nothing, when no
    /// workspace holds the window.
    pub fn hide_window(&mut self, window_id: WindowId, workspaces: &mut Vec<Workspace>) -> (r: Option<usize>)
        requires
            all_wf(old(workspaces)@),
        ensures
            all_wf(final(workspaces)@),
            final(workspaces)@.len() == old(workspaces)@.len(),
            final(self).spec_last_reconcile() == old(self).spec_last_reconcile(),
            final(self).spec_hidden().dom().finite(),
            match workspace_of(old(workspaces)@, window_id) {
                None => r is None && final(self).spec_hidden() == old(self).spec_hidden() && final(workspaces)@
                    == old(workspaces)@,
                Some(i) => {
                    &&& r == Some(i as usize)
                    &&& final(self).spec_hidden() == old(self).spec_hidden().insert(window_id, i as usize)
                    &&& removed_at(old(workspaces)@, final(workspaces)@, i, window_id)
                },
            },
    {
        let idx = match find_workspace_for_window(workspaces, window_id) {
            Some(i) => i,
            None => return None,
        };
        proof {
            crate::state::lemma_workspace_of_facts(old(workspaces)@, window_id);
        }
        remove_window_at(workspaces, idx, window_id);
        self.hidden.insert(window_id, idx);
        Some(idx)
    }

    /// Forget a hidden entry and return its remembered workspace index.
    pub fn take_hidden(&mut self, window_id: WindowId) -> (r: Option<usize>)
        ensures
            r == (if old(self).spec_hidden().contains_key(window_id) {
                Some(old(self).spec_hidden()[window_id])
            } else {
                None
            }),
            final(self).spec_hidden() == old(self).spec_hidden().remove(window_id),
            final(self).spec_last_reconcile() == old(self).spec_last_reconcile(),
            final(self).spec_hidden().dom().finite(),
    {
        self.hidden.remove(&window_id)
    }

    /// Forget a hidden entry and return its remembered workspace index.
    pub fn remove(&mut self, window_id: WindowId) -> (r: Option<usize>)
        ensures
            r == (if old(self).spec_hidden().contains_key(window_id) {
                Some(old(self).spec_hidden()[window_id])
            } else {
                None
            }),
            final(self).spec_hidden() == old(self).spec_hidden().remove(window_id),
            final(self).spec_last_reconcile() == old(self).spec_last_reconcile(),
            final(self).spec_hidden().dom().finite(),
    {
        self.hidden.remove(&window_id)
    }

    /// Remember `window_id` as hidden from workspace `idx`; returns the index
    /// it was remembered with before, if any.
    pub fn insert(&mut self, window_id: WindowId, idx: usize) -> (r: Option<usize>)
        ensures
            r == (if old(self).spec_hidden().contains_key(window_id) {
                Some(old(self).spec_hidden()[window_id])
            } else {
                None
            }),
            final(self).spec_hidden() == old(self).spec_hidden().insert(window_id, idx),
            final(self).spec_last_reconcile() == old(self).spec_last_reconcile(),
            final(self).spec_hidden().dom().finite(),
    {
        self.hidden.insert(window_id, idx)
    }

    /// True when at least `RECONCILE_INTERVAL_MS` have passed since the last
    /// reconciliation (a `now` before it counts as no time passed); then the
    /// clock moves to `now`, so that the next call is debounced.
    pub fn should_reconcile(&mut self, now: u64) -> (r: bool)
        ensures
            r == (now >= old(self).spec_last_reconcile() && now - old(self).spec_last_reconcile()
                >= RECONCILE_INTERVAL_MS),
            final(self).spec_last_reconcile() == (if r {
                now
            } else {
                old(self).spec_last_reconcile()
            }),
            final(self).spec_hidden() == old(self).spec_hidden(),
    {
        if now >= self.last_reconcile && now - self.last_reconcile >= RECONCILE_INTERVAL_MS {
            self.last_reconcile = now;
            true
        } else {
            false
        }
    }

    /// The windows to hide and to show again, given each known window with
    /// whether the system reports it hidden: a hidden window still tiled in
    /// some workspace is to be hidden; a visible window remembered here is to
    /// be shown. Both lists keep the order of `windows`.
    pub fn pending_for_reconcile(&self, windows: &Vec<(WindowId, bool)>, workspaces: &Vec<Workspace>) -> (r: (
        Vec<WindowId>,
        Vec<WindowId>,
    ))
        requires
            all_wf(workspaces@),
        ensures
            r.0@ == to_hide_spec(windows@, workspaces@),
            r.1@ == to_show_spec(windows@, self.spec_hidden()),
            ids_distinct(windows@) ==> r.0@.no_duplicates() && r.1@.no_duplicates() && forall|w: WindowId|
                !(#[trigger] r.0@.contains(w) && r.1@.contains(w)),
    {
        let mut to_hide: Vec<WindowId> = Vec::new();
        let mut to_show: Vec<WindowId> = Vec::new();
        let mut i: usize = 0;
        while i < windows.len()
            invariant
                all_wf(workspaces@),
                i <= windows@.len(),
                to_hide@ == to_hide_spec(windows@.take(i as int), workspaces@),
                to_show@ == to_show_spec(windows@.take(i as int), self.spec_hidden()),
            decreases windows@.len() - i,
        {
            let (wid, hidden) = windows[i];
            assert(windows@.take(i + 1).drop_last() =~= windows@.take(i as int));
            assert(windows@.take(i + 1).last() == windows@[i as int]);
            if hidden && find_workspace_for_window(workspaces, wid).is_some() {
                to_hide.push(wid);
            } else if !hidden && self.hidden.contains_key(&wid) {
                to_show.push(wid);
            }
            i = i + 1;
        }
        assert(windows@.take(i as int) =~= windows@);
        proof {
            if ids_distinct(windows@) {
                lemma_pending_distinct(windows@, workspaces@, self.spec_hidden());
            }
        }
        (to_hide, to_show)
    }
}

/// The hidden windows still tiled somewhere, in order.
pub open spec fn to_hide_spec(windows: Seq<(WindowId, bool)>, workspaces: Seq<Workspace>) -> Seq<WindowId>
    decreases windows.len(),
{
    if windows.len() == 0 {
        Seq::empty()
    } else {
        let pre = to_hide_spec(windows.drop_last(), workspaces);
        let (w, hidden) = windows.last();
        if hidden && workspace_of(workspaces, w) is Some {
            pre.push(w)
        } else {
            pre
        }
    }
}

/// The visible windows remembered as hidden, in order.
pub open spec fn to_show_spec(windows: Seq<(WindowId, bool)>, hidden_map: Map<WindowId, usize>) -> Seq<WindowId>
    decreases windows.len(),
{
    if windows.len() == 0 {
        Seq::empty()
    } else {
        let pre = to_show_spec(windows.drop_last(), hidden_map);
        let (w, hidden) = windows.last();
        if !hidden && hidden_map.contains_key(w) {
            pre.push(w)
        } else {
            pre
        }
    }
}

impl Default for HiddenTracker {
    fn default() -> (r: Self)
        ensures
            r.spec_hidden() == Map::<WindowId, usize>::empty(),
    {
        Self::new()
    }
}

/// What `insert` (or `hide_window`) remembers, `take_hidden` gives back, and
/// afterwards the window is no longer remembered.
pub proof fn law_take_returns_inserted(hidden: Map<WindowId, usize>, w: WindowId, idx: usize)
    ensures
        hidden.insert(w, idx).contains_key(w),
        hidden.insert(w, idx)[w] == idx,
        !hidden.insert(w, idx).remove(w).contains_key(w),
{
}

/// Reconciliation is debounced: right after a check that was due, a second
/// check at the same time (or less than the interval later) is not due.
pub proof fn law_reconcile_debounced(last: u64, now: u64, later: u64)
    requires
        now >= last && now - last >= RECONCILE_INTERVAL_MS,
        now <= later < now + RECONCILE_INTERVAL_MS,
    ensures
        !(later >= now && later - now >= RECONCILE_INTERVAL_MS),
{
}


/// A window to hide is reported hidden.
pub proof fn lemma_to_hide_members(windows: Seq<(WindowId, bool)>, workspaces: Seq<Workspace>, w: WindowId)
    ensures
        to_hide_spec(windows, workspaces).contains(w) ==> exists|i: int| 0 <= i < windows.len() && windows[i] == (w, true),
        to_hide_spec(windows, workspaces).contains(w) ==> workspace_of(workspaces, w) is Some,
    decreases windows.len(),
{
    if windows.len() > 0 {
        let pre = windows.drop_last();
        lemma_to_hide_members(pre, workspaces, w);
        let p = to_hide_spec(pre, workspaces);
        if to_hide_spec(windows, workspaces).contains(w) {
            if p.contains(w) {
                let i = choose|i: int| 0 <= i < pre.len() && pre[i] == (w, true);
                assert(windows[i] == pre[i]);
            } else {
                let j = choose|j: int| 0 <= j < to_hide_spec(windows, workspaces).len() && to_hide_spec(windows, workspaces)[j] == w;
                if j < p.len() {
                    assert(to_hide_spec(windows, workspaces)[j] == p[j]);
                }
                assert(windows[windows.len() - 1] == windows.last());
            }
        }
    }
}

/// A window to show is reported visible.
pub proof fn lemma_to_show_members(windows: Seq<(WindowId, bool)>, hidden_map: Map<WindowId, usize>, w: WindowId)
    ensures
        to_show_spec(windows, hidden_map).contains(w) ==> exists|i: int| 0 <= i < windows.len() && windows[i] == (w, false),
    decreases windows.len(),
{
    if windows.len() > 0 {
        let pre = windows.drop_last();
        lemma_to_show_members(pre, hidden_map, w);
        let p = to_show_spec(pre, hidden_map);
        if to_show_spec(windows, hidden_map).contains(w) {
            if p.contains(w) {
                let i = choose|i: int| 0 <= i < pre.len() && pre[i] == (w, false);
                assert(windows[i] == pre[i]);
            } else {
                let j = choose|j: int| 0 <= j < to_show_spec(windows, hidden_map).len() && to_show_spec(windows, hidden_map)[j] == w;
                if j < p.len() {
                    assert(to_show_spec(windows, hidden_map)[j] == p[j]);
                }
                assert(windows[windows.len() - 1] == windows.last());
            }
        }
    }
}


/// No window appears twice in `windows`.
pub open spec fn ids_distinct(windows: Seq<(WindowId, bool)>) -> bool {
    forall|i: int, j: int| 0 <= i < j < windows.len() ==> windows[i].0 != windows[j].0
}

/// With each window reported once, no window is to be hidden or shown
/// twice, and none is both.
proof fn lemma_pending_distinct(windows: Seq<(WindowId, bool)>, workspaces: Seq<Workspace>, hidden_map: Map<WindowId, usize>)
    requires
        ids_distinct(windows),
    ensures
        to_hide_spec(windows, workspaces).no_duplicates(),
        to_show_spec(windows, hidden_map).no_duplicates(),
        forall|w: WindowId|
            !(#[trigger] to_hide_spec(windows, workspaces).contains(w) && to_show_spec(windows, hidden_map).contains(w)),
    decreases windows.len(),
{
    if windows.len() > 0 {
        let pre = windows.drop_last();
        assert(ids_distinct(pre)) by {
            assert forall|i: int, j: int| 0 <= i < j < pre.len() implies pre[i].0 != pre[j].0 by {
                assert(pre[i] == windows[i] && pre[j] == windows[j]);
            }
        }
        lemma_pending_distinct(pre, workspaces, hidden_map);
        let (w, _) = windows.last();
        let ph = to_hide_spec(pre, workspaces);
        let ps = to_show_spec(pre, hidden_map);
        lemma_to_hide_members(pre, workspaces, w);
        lemma_to_show_members(pre, hidden_map, w);
        assert(!ph.contains(w)) by {
            if ph.contains(w) {
                let i = choose|i: int| 0 <= i < pre.len() && pre[i] == (w, true);
                assert(windows[i] == pre[i]);
                assert(windows[windows.len() - 1] == windows.last());
            }
        }
        assert(!ps.contains(w)) by {
            if ps.contains(w) {
                let i = choose|i: int| 0 <= i < pre.len() && pre[i] == (w, false);
                assert(windows[i] == pre[i]);
                assert(windows[windows.len() - 1] == windows.last());
            }
        }
        let h = to_hide_spec(windows, workspaces);
        let sh = to_show_spec(windows, hidden_map);
        assert(h.no_duplicates()) by {
            if h.len() > ph.len() {
                assert forall|i: int, j: int| 0 <= i < j < h.len() implies h[i] != h[j] by {
                    if j == h.len() - 1 {
                        assert(h[i] == ph[i]);
                        assert(ph.contains(ph[i]));
                    } else {
                        assert(h[i] == ph[i] && h[j] == ph[j]);
                    }
                }
            }
        }
        assert(sh.no_duplicates()) by {
            if sh.len() > ps.len() {
                assert forall|i: int, j: int| 0 <= i < j < sh.len() implies sh[i] != sh[j] by {
                    if j == sh.len() - 1 {
                        assert(sh[i] == ps[i]);
                        assert(ps.contains(ps[i]));
                    } else {
                        assert(sh[i] == ps[i] && sh[j] == ps[j]);
                    }
                }
            }
        }
        assert forall|x: WindowId| !(#[trigger] h.contains(x) && sh.contains(x)) by {
            if h.contains(x) && sh.contains(x) {
                lemma_to_hide_members(windows, workspaces, x);
                lemma_to_show_members(windows, hidden_map, x);
                let i = choose|i: int| 0 <= i < windows.len() && windows[i] == (x, true);
                let j = choose|j: int| 0 <= j < windows.len() && windows[j] == (x, false);
                assert(i != j);
                if i < j {
                    assert(windows[i].0 != windows[j].0);
                } else {
                    assert(windows[j].0 != windows[i].0);
                }
            }
        }
    }
}

} // verus!

//! Where windows go: the per-workspace tile capacity, the guess of which
//! workspace is active, and the routing of an app's new windows to the
//! workspace configured for it.
use std::collections::HashMap;
use vstd::prelude::*;

use crate::settings::WorkspaceEntry;
use crate::state::display::DisplaySet;
use crate::state::{all_wf, has_window};
use crate::text::{eq_ignore_ascii_case, eq_ignore_ascii_case_spec, str_eq};
use crate::tree::WindowId;
use crate::workspace::Workspace;
use vstd::std_specs::iter::IteratorSpec;

verus! {

broadcast use vstd::std_specs::hash::group_hash_axioms;

/// The first workspace at offset `k`, `k + 1`, ... `ws.len()` after `start`
/// (wrapping) that is on `start`'s display and holds fewer than `max`
/// windows.
pub open spec fn capacity_search(ws: Seq<Workspace>, start: int, max: nat, k: nat) -> Option<usize>
    decreases ws.len() + 1 - k,
{
    if k > ws.len() || ws.len() == 0 {
        None
    } else {
        let idx = (start + k) % (ws.len() as int);
        if ws[idx].spec_monitor_id() == ws[start].spec_monitor_id() && ws[idx].window_seq().len() < max {
            Some(idx as usize)
        } else {
            capacity_search(ws, start, max, k + 1)
        }
    }
}

/// The index the first workspace holding `w` (among the first `upto`) is
/// shown under, when its display shows an index inside `ws`.
pub open spec fn shown_hit(ws: Seq<Workspace>, upto: int, w: WindowId, active: Map<u32, usize>) -> Option<usize>
    decreases upto,
{
    if upto <= 0 {
        None
    } else {
        match shown_hit(ws, upto - 1, w, active) {
            Some(x) => Some(x),
            None => {
                let c = ws[upto - 1];
                if has_window(c, w) && active.contains_key(c.spec_monitor_id()) && active[c.spec_monitor_id()]
                    < ws.len() {
                    Some(active[c.spec_monitor_id()])
                } else {
                    None
                }
            },
        }
    }
}

/// `shown_hit` for the first of `wins` that has one.
pub open spec fn windows_hit(ws: Seq<Workspace>, wins: Seq<WindowId>, active: Map<u32, usize>) -> Option<usize>
    decreases wins.len(),
{
    if wins.len() == 0 {
        None
    } else {
        match windows_hit(ws, wins.drop_last(), active) {
            Some(x) => Some(x),
            None => shown_hit(ws, ws.len() as int, wins.last(), active),
        }
    }
}

/// Whether `app` names the app by its bundle id or its display name,
/// ignoring ASCII case.
pub open spec fn app_matches(app: Seq<char>, bundle: Option<Seq<char>>, name: Option<Seq<char>>) -> bool {
    (bundle matches Some(b) && eq_ignore_ascii_case_spec(b, app)) || (name matches Some(n)
        && eq_ignore_ascii_case_spec(n, app))
}

/// The first entry listing an app that matches.
pub open spec fn entry_for(entries: Seq<WorkspaceEntry>, bundle: Option<Seq<char>>, name: Option<Seq<char>>) -> Option<
    int,
> {
    if exists|i: int| 0 <= i < entries.len() && entry_lists(entries[i], bundle, name) {
        Some(
            choose|i: int|
                0 <= i < entries.len() && entry_lists(entries[i], bundle, name) && forall|j: int|
                    0 <= j < i ==> !entry_lists(entries[j], bundle, name),
        )
    } else {
        None
    }
}

/// Some app of `e` matches.
pub open spec fn entry_lists(e: WorkspaceEntry, bundle: Option<Seq<char>>, name: Option<Seq<char>>) -> bool {
    exists|k: int| 0 <= k < e.apps@.len() && app_matches(#[trigger] e.apps@[k]@, bundle, name)
}

pub open spec fn opt_view(s: Option<String>) -> Option<Seq<char>> {
    match s {
        Some(v) => Some(v@),
        None => None,
    }
}

/// The tile capacity of every workspace.
pub struct Router {
    max_tiles: usize,
}

impl Router {
    pub closed spec fn spec_max_tiles(&self) -> usize {
        self.max_tiles
    }

    /// A router allowing `max_tiles` windows per workspace (at least one).
    pub fn new(max_tiles: usize) -> (r: Self)
        ensures
            r.spec_max_tiles() == if max_tiles < 1 {
                1
            } else {
                max_tiles
            },
    {
        Self { max_tiles: if max_tiles < 1 {
            1
        } else {
            max_tiles
        } }
    }

    pub fn max_tiles(&self) -> (r: usize)
        ensures
            r == self.spec_max_tiles(),
    {
        self.max_tiles
    }

    /// Allow `n` windows per workspace (at least one).
    pub fn set_max_tiles(&mut self, n: usize)
        ensures
            final(self).spec_max_tiles() == if n < 1 {
                1
            } else {
                n
            },
    {
        self.max_tiles = if n < 1 {
            1
        } else {
            n
        };
    }

    /// The first workspace after `start`, wrapping, on the same display and
    /// with room for another window; `None` when there is none.
    pub fn find_next_with_capacity(&self, workspaces: &Vec<Workspace>, start: usize) -> (r: Option<usize>)
        requires
            all_wf(workspaces@),
            workspaces@.len() == 0 || start < workspaces@.len(),
        ensures
            r == capacity_search(workspaces@, start as int, self.spec_max_tiles() as nat, 1),
    {
        let n = workspaces.len();
        if n == 0 {
            return None;
        }
        assert(workspaces@[start as int].wf());
        let monitor = workspaces[start].monitor_id();
        let mut offset: usize = 0;
        while offset < n
            invariant
                n == workspaces@.len(),
                start < n,
                offset <= n,
                all_wf(workspaces@),
                monitor == workspaces@[start as int].spec_monitor_id(),
                capacity_search(workspaces@, start as int, self.spec_max_tiles() as nat, 1) == capacity_search(
                    workspaces@,
                    start as int,
                    self.spec_max_tiles() as nat,
                    (offset + 1) as nat,
                ),
            decreases n - offset,
        {
            let k = offset + 1;
            let rem = n - start;
            let idx = if k < rem {
                start + k
            } else {
                k - rem
            };
            assert(idx as int == (start + k) % (n as int)) by (nonlinear_arith)
                requires
                    rem == n - start,
                    start < n,
                    1 <= k <= n,
                    idx == if k < rem {
                        start + k
                    } else {
                        k - rem
                    },
            ;
            assert(workspaces@[idx as int].wf());
            if workspaces[idx].monitor_id() == monitor && workspaces[idx].window_count() < self.max_tiles {
                return Some(idx);
            }
            offset = offset + 1;
        }
        None
    }

    /// The workspace shown on the display of the first workspace holding
    /// the first window of `frontmost_pid` that has one (when that index is
    /// inside `workspaces`); otherwise some index that a display shows, or 0
    /// when none does.
    pub fn active_workspace_idx(
        &self,
        workspaces: &Vec<Workspace>,
        pid_to_windows: &HashMap<i32, Vec<WindowId>>,
        frontmost_pid: Option<i32>,
        displays: &DisplaySet,
    ) -> (r: usize)
        requires
            all_wf(workspaces@),
        ensures
            ({
                let active = displays.spec_active();
                let hit = match frontmost_pid {
                    Some(pid) => if pid_to_windows@.contains_key(pid) {
                        windows_hit(workspaces@, pid_to_windows@[pid]@, active)
                    } else {
                        None
                    },
                    None => None,
                };
                match hit {
                    Some(x) => r == x,
                    None => if active.is_empty() {
                        r == 0
                    } else {
                        active.contains_value(r)
                    },
                }
            }),
    {
        let active = displays.active();
        if let Some(pid) = frontmost_pid {
            if let Some(windows) = pid_to_windows.get(&pid) {
                let mut i: usize = 0;
                assert(windows@.take(0) =~= Seq::<WindowId>::empty());
                while i < windows.len()
                    invariant
                        all_wf(workspaces@),
                        active@ == displays.spec_active(),
                        frontmost_pid == Some(pid),
                        pid_to_windows@.contains_key(pid),
                        *windows == pid_to_windows@[pid],
                        i <= windows@.len(),
                        windows_hit(workspaces@, windows@.take(i as int), active@) is None,
                    decreases windows@.len() - i,
                {
                    let window_id = windows[i];
                    assert(windows@.take(i + 1).drop_last() =~= windows@.take(i as int));
                    let mut j: usize = 0;
                    while j < workspaces.len()
                        invariant
                            all_wf(workspaces@),
                            active@ == displays.spec_active(),
                            frontmost_pid == Some(pid),
                            pid_to_windows@.contains_key(pid),
                            *windows == pid_to_windows@[pid],
                            i < windows@.len(),
                            window_id == windows@[i as int],
                            windows_hit(workspaces@, windows@.take(i as int), active@) is None,
                            j <= workspaces@.len(),
                            shown_hit(workspaces@, j as int, window_id, active@) is None,
                        decreases workspaces@.len() - j,
                    {
                        assert(workspaces@[j as int].wf());
                        if workspaces[j].find_window(window_id).is_some() {
                            assert(has_window(workspaces@[j as int], window_id));
                            match active.get(&workspaces[j].monitor_id()) {
                                Some(idx) => {
                                    if *idx < workspaces.len() {
                                        proof {
                                            assert(shown_hit(workspaces@, j + 1, window_id, active@) == Some(*idx));
                                            lemma_shown_hit_prefix(
                                                workspaces@,
                                                j + 1,
                                                workspaces@.len() as int,
                                                window_id,
                                                active@,
                                            );
                                            lemma_windows_hit_prefix(
                                                workspaces@,
                                                windows@,
                                                i as int,
                                                active@,
                                            );
                                        }
                                        return *idx;
                                    }
                                },
                                None => {},
                            }
                        }
                        j = j + 1;
                    }
                    i = i + 1;
                }
                assert(windows@.take(i as int) =~= windows@);
            }
        }
        let ghost vs = vstd::std_specs::hash::spec_values_iter(active).remaining();
        let ghost mut seen: int = 0;
        let mut first: Option<usize> = None;
        for v in it: active.values()
            invariant
                it.seq() == vs,
                seen == it.index(),
                vs.unref().to_set() == active@.values(),
                vs.len() == active@.dom().len(),
                seen == 0 <==> first is None,
                first matches Some(x) ==> seen > 0 && x == *vs[0],
        {
            if first.is_none() {
                first = Some(*v);
            }
            proof {
                seen = seen + 1;
            }
        }
        match first {
            Some(x) => {
                proof {
                    assert(vs.unref()[0] == x);
                    assert(vs.unref().to_set().contains(x));
                    assert(!active@.is_empty()) by {
                        assert(active@.dom().len() > 0);
                    }
                }
                x
            },
            None => {
                proof {
                    assert(active@.dom().finite());
                    if !active@.dom().is_empty() {
                        let k = active@.dom().choose();
                        vstd::set_lib::lemma_len_subset(set![k], active@.dom());
                    }
                    assert(active@.dom() =~= Set::<u32>::empty());
                }
                0
            },
        }
    }

    /// The name of the first configured workspace listing the app, matched
    /// ignoring ASCII case against its bundle id, then its display name.
    pub fn configured_workspace_name<'a>(
        &self,
        bundle: &Option<String>,
        app_name: &Option<String>,
        entries: &'a [WorkspaceEntry],
    ) -> (r: Option<&'a str>)
        ensures
            match entry_for(entries@, opt_view(*bundle), opt_view(*app_name)) {
                Some(i) => r is Some && r->0@ == entries@[i].name@,
                None => r is None,
            },
    {
        let ghost b = opt_view(*bundle);
        let ghost nm = opt_view(*app_name);
        let mut i: usize = 0;
        while i < entries.len()
            invariant
                i <= entries@.len(),
                b == opt_view(*bundle),
                nm == opt_view(*app_name),
                forall|j: int| 0 <= j < i ==> !entry_lists(#[trigger] entries@[j], b, nm),
            decreases entries@.len() - i,
        {
            let apps = &entries[i].apps;
            let mut k: usize = 0;
            let mut found = false;
            while k < apps.len() && !found
                invariant
                    i < entries@.len(),
                    k <= apps@.len(),
                    apps@ == entries@[i as int].apps@,
                    b == opt_view(*bundle),
                    nm == opt_view(*app_name),
                    found ==> k > 0 && app_matches(apps@[k - 1]@, b, nm),
                    !found ==> forall|q: int| 0 <= q < k ==> !app_matches(#[trigger] apps@[q]@, b, nm),
                decreases apps@.len() - k,
            {
                let app = apps[k].as_str();
                let by_bundle = match bundle {
                    Some(s) => eq_ignore_ascii_case(s.as_str(), app),
                    None => false,
                };
                let by_name = match app_name {
                    Some(s) => eq_ignore_ascii_case(s.as_str(), app),
                    None => false,
                };
                if by_bundle || by_name {
                    found = true;
                }
                k = k + 1;
            }
            if found {
                proof {
                    assert(app_matches(entries@[i as int].apps@[k - 1]@, b, nm));
                    assert(entry_lists(entries@[i as int], b, nm));
                    let c = choose|c: int|
                        0 <= c < entries@.len() && entry_lists(entries@[c], b, nm) && forall|j: int|
                            0 <= j < c ==> !entry_lists(entries@[j], b, nm);
                    assert(exists|c: int|
                        0 <= c < entries@.len() && entry_lists(entries@[c], b, nm) && forall|j: int|
                            0 <= j < c ==> !entry_lists(entries@[j], b, nm)) by {
                        assert(forall|j: int| 0 <= j < i ==> !entry_lists(entries@[j], b, nm));
                    }
                    if c < i {
                    } else if c > i {
                    }
                    assert(c == i);
                }
                return Some(entries[i].name.as_str());
            }
            proof {
                assert(!entry_lists(entries@[i as int], b, nm));
            }
            i = i + 1;
        }
        None
    }

    /// The index of the workspace on the active workspace's display named
    /// after the app's configured workspace; `None` when the active index
    /// is out of range, the app has no configured workspace, or no such
    /// workspace exists there.
    pub fn routed_workspace_idx(
        &self,
        workspaces: &Vec<Workspace>,
        active_idx: usize,
        bundle: &Option<String>,
        app_name: &Option<String>,
        entries: &[WorkspaceEntry],
    ) -> (r: Option<usize>)
        requires
            all_wf(workspaces@),
        ensures
            r matches Some(i) ==> i < workspaces@.len(),
            active_idx >= workspaces@.len() ==> r is None,
            active_idx < workspaces@.len() ==> match entry_for(entries@, opt_view(*bundle), opt_view(*app_name)) {
                None => r is None,
                Some(e) => match first_named(
                    workspaces@,
                    entries@[e].name@,
                    workspaces@[active_idx as int].spec_monitor_id(),
                ) {
                    Some(i) => r == Some(i as usize),
                    None => r is None,
                },
            },
    {
        if active_idx >= workspaces.len() {
            return None;
        }
        assert(workspaces@[active_idx as int].wf());
        let monitor = workspaces[active_idx].monitor_id();
        let name = match self.configured_workspace_name(bundle, app_name, entries) {
            Some(n) => n,
            None => return None,
        };
        let ghost e = entry_for(entries@, opt_view(*bundle), opt_view(*app_name))->0;
        let mut i: usize = 0;
        while i < workspaces.len()
            invariant
                i <= workspaces@.len(),
                all_wf(workspaces@),
                active_idx < workspaces@.len(),
                monitor == workspaces@[active_idx as int].spec_monitor_id(),
                entry_for(entries@, opt_view(*bundle), opt_view(*app_name)) == Some(e),
                name@ == entries@[e].name@,
                forall|j: int|
                    0 <= j < i ==> !(#[trigger] workspaces@[j].spec_name() == name@ && workspaces@[j].spec_monitor_id()
                        == monitor),
            decreases workspaces@.len() - i,
        {
            assert(workspaces@[i as int].wf());
            if str_eq(workspaces[i].name().as_str(), name) && workspaces[i].monitor_id() == monitor {
                proof {
                    let ws = workspaces@;
                    let c = choose|c: int|
                        0 <= c < ws.len() && ws[c].spec_name() == name@ && ws[c].spec_monitor_id() == monitor
                            && forall|j: int|
                            0 <= j < c ==> !(ws[j].spec_name() == name@ && ws[j].spec_monitor_id() == monitor);
                    assert(ws[i as int].spec_name() == name@ && ws[i as int].spec_monitor_id() == monitor);
                    if c < i {
                        assert(!(ws[c].spec_name() == name@ && ws[c].spec_monitor_id() == monitor));
                    } else if c > i {
                    }
                }
                return Some(i);
            }
            i = i + 1;
        }
        None
    }
}

/// The first workspace named `name` on display `monitor`.
pub open spec fn first_named(ws: Seq<Workspace>, name: Seq<char>, monitor: u32) -> Option<int> {
    if exists|i: int| 0 <= i < ws.len() && ws[i].spec_name() == name && ws[i].spec_monitor_id() == monitor {
        Some(
            choose|i: int|
                0 <= i < ws.len() && ws[i].spec_name() == name && ws[i].spec_monitor_id() == monitor && forall|j: int|
                    0 <= j < i ==> !(ws[j].spec_name() == name && ws[j].spec_monitor_id() == monitor),
        )
    } else {
        None
    }
}

proof fn lemma_shown_hit_prefix(ws: Seq<Workspace>, j: int, upto: int, w: WindowId, active: Map<u32, usize>)
    requires
        0 <= j <= upto,
        shown_hit(ws, j, w, active) is Some,
    ensures
        shown_hit(ws, upto, w, active) == shown_hit(ws, j, w, active),
    decreases upto - j,
{
    if upto > j {
        lemma_shown_hit_prefix(ws, j, upto - 1, w, active);
    }
}

proof fn lemma_windows_hit_prefix(ws: Seq<Workspace>, wins: Seq<WindowId>, i: int, active: Map<u32, usize>)
    requires
        0 <= i < wins.len(),
        windows_hit(ws, wins.take(i), active) is None,
        shown_hit(ws, ws.len() as int, wins[i], active) is Some,
    ensures
        windows_hit(ws, wins, active) == shown_hit(ws, ws.len() as int, wins[i], active),
    decreases wins.len(),
{
    assert(wins.take(i + 1).drop_last() =~= wins.take(i));
    if wins.len() > i + 1 {
        assert(wins.drop_last().take(i) =~= wins.take(i));
        lemma_windows_hit_prefix(ws, wins.drop_last(), i, active);
    } else {
        assert(wins.take(i + 1) =~= wins);
    }
}

/// The workspace `find_next_with_capacity` picks is on the start's display
/// and has room: it holds fewer than `max` windows.
pub proof fn law_capacity_pick_has_room(ws: Seq<Workspace>, start: int, max: nat, k: nat)
    requires
        0 <= start < ws.len() <= usize::MAX,
        capacity_search(ws, start, max, k) is Some,
    ensures
        ({
            let i = capacity_search(ws, start, max, k)->0 as int;
            &&& 0 <= i < ws.len()
            &&& ws[i].spec_monitor_id() == ws[start].spec_monitor_id()
            &&& ws[i].window_seq().len() < max
        }),
    decreases ws.len() + 1 - k,
{
    let idx = (start + k) % (ws.len() as int);
    if !(ws[idx].spec_monitor_id() == ws[start].spec_monitor_id() && ws[idx].window_seq().len() < max) {
        law_capacity_pick_has_room(ws, start, max, k + 1);
    } else {
        assert(0 <= idx < ws.len()) by (nonlinear_arith)
            requires
                idx == (start + k) % (ws.len() as int),
                ws.len() > 0,
        ;
    }
}

proof fn lemma_shown_hit_in_range(ws: Seq<Workspace>, upto: int, w: WindowId, active: Map<u32, usize>)
    ensures
        shown_hit(ws, upto, w, active) matches Some(x) ==> x < ws.len(),
    decreases upto,
{
    if upto > 0 {
        lemma_shown_hit_in_range(ws, upto - 1, w, active);
    }
}

/// The index the frontmost app's windows point at is a workspace index.
pub proof fn lemma_windows_hit_in_range(ws: Seq<Workspace>, wins: Seq<WindowId>, active: Map<u32, usize>)
    ensures
        windows_hit(ws, wins, active) matches Some(x) ==> x < ws.len(),
    decreases wins.len(),
{
    if wins.len() > 0 {
        lemma_windows_hit_in_range(ws, wins.drop_last(), active);
        lemma_shown_hit_in_range(ws, ws.len() as int, wins.last(), active);
    }
}

} // verus!

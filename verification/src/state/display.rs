//! The display registry: which workspace is shown on each display, and the
//! named workspace set that every display gets a copy of.
use std::collections::HashMap;
use vstd::prelude::*;

use crate::adapter::{display_with_id, find_display, DisplayInfo};
use crate::settings::WorkspaceEntry;
use crate::state::all_wf;
use crate::workspace::Workspace;
use vstd::std_specs::iter::IteratorSpec;

verus! {

broadcast use vstd::std_specs::hash::group_hash_axioms;

/// `ws` is a new, empty workspace with these name and geometry.
pub open spec fn is_fresh(ws: Workspace, name: Seq<char>, monitor: u32, origin: (i32, i32), size: (u32, u32)) -> bool {
    &&& ws.wf()
    &&& ws.spec_name() == name
    &&& ws.spec_monitor_id() == monitor
    &&& ws.spec_monitor_origin() == origin
    &&& ws.spec_monitor_size() == size
    &&& ws.nodes() == Map::<u64, crate::tree::NodeView>::empty()
    &&& ws.spec_root() is None
    &&& ws.spec_focused() is None
    &&& ws.spec_pending() is None
    &&& !ws.spec_monocle()
    &&& ws.spec_reserved() is None
    &&& ws.spec_next_id() == 0
}

/// `ws` holds one fresh workspace per entry, in order, on display `d`.
pub open spec fn fresh_for(ws: Seq<Workspace>, entries: Seq<WorkspaceEntry>, d: DisplayInfo) -> bool {
    &&& ws.len() == entries.len()
    &&& forall|i: int| 0 <= i < ws.len() ==> is_fresh(#[trigger] ws[i], entries[i].name@, d.id, d.origin, d.size)
}

/// `ws` is one block of fresh workspaces per display of `ds`, in order.
pub open spec fn laid_out(ws: Seq<Workspace>, ds: Seq<DisplayInfo>, entries: Seq<WorkspaceEntry>) -> bool
    decreases ds.len(),
{
    if ds.len() == 0 {
        ws.len() == 0
    } else {
        &&& ws.len() >= entries.len()
        &&& laid_out(ws.take(ws.len() - entries.len()), ds.drop_last(), entries)
        &&& fresh_for(ws.skip(ws.len() - entries.len()), entries, ds.last())
    }
}

/// Each display of `ds` mapped to the index of its first workspace when
/// every display gets `n` workspaces (a repeated id keeps its last block).
pub open spec fn first_indices(ds: Seq<DisplayInfo>, n: nat) -> Map<u32, usize>
    decreases ds.len(),
{
    if ds.len() == 0 {
        Map::empty()
    } else {
        first_indices(ds.drop_last(), n).insert(ds.last().id, ((ds.len() - 1) * n) as usize)
    }
}

/// `m` without the entries whose index is `bound` or more.
pub open spec fn below(m: Map<u32, usize>, bound: usize) -> Map<u32, usize> {
    Map::new(|k: u32| m.contains_key(k) && m[k] < bound, |k: u32| m[k])
}

/// Drop the entries of `m` whose index is `bound` or more.
fn retain_below(m: &mut HashMap<u32, usize>, bound: usize)
    ensures
        final(m)@ == below(old(m)@, bound),
{
    let ghost m0 = m@;
    let mut doomed: Vec<u32> = Vec::new();
    let ghost ks = vstd::std_specs::hash::spec_keys_iter(&*m).remaining();
    assert(ks.unref().to_set() == m0.dom());
    let ghost mut idx: int = 0;
    for k in it: m.keys()
        invariant
            m@ == m0,
            it.seq() == ks,
            idx == it.index(),
            forall|j: int| 0 <= j < doomed@.len() ==> #[trigger] m0.contains_key(doomed@[j]) && m0[doomed@[j]] >= bound,
            forall|j: int|
                0 <= j < idx && m0.contains_key(*ks[j]) && m0[*ks[j]] >= bound ==> doomed@.contains(*ks[j]),
    {
        assert(k == ks[idx]);
        let ghost d0 = doomed@;
        match m.get(k) {
            Some(v) => {
                if *v >= bound {
                    doomed.push(*k);
                    assert(doomed@ == d0.push(*k));
                    assert(doomed@[d0.len() as int] == *k);
                }
            },
            None => {},
        }
        proof {
            assert forall|x: u32| d0.contains(x) implies doomed@.contains(x) by {
                let j = choose|j: int| 0 <= j < d0.len() && d0[j] == x;
                assert(doomed@[j] == x);
            }
            idx = idx + 1;
        }
    }
    assert(idx == ks.len());
    assert forall|k: u32| m0.contains_key(k) && m0[k] >= bound implies doomed@.contains(k) by {
        assert(m0.dom().contains(k));
        assert(ks.unref().to_set().contains(k));
        let j = choose|j: int| 0 <= j < ks.unref().len() && ks.unref()[j] == k;
        assert(ks.unref()[j] == *ks[j]);
    }
    let mut i: usize = 0;
    while i < doomed.len()
        invariant
            i <= doomed@.len(),
            forall|j: int| 0 <= j < doomed@.len() ==> #[trigger] m0.contains_key(doomed@[j]) && m0[doomed@[j]] >= bound,
            forall|k: u32| m0.contains_key(k) && m0[k] >= bound ==> doomed@.contains(k),
            forall|k: u32|
                #[trigger] m@.contains_key(k) == (m0.contains_key(k) && !doomed@.take(i as int).contains(k)),
            forall|k: u32| m@.contains_key(k) ==> m@[k] == m0[k],
        decreases doomed@.len() - i,
    {
        let ghost before = doomed@.take(i as int);
        let ghost d = doomed@[i as int];
        m.remove(&doomed[i]);
        proof {
            let after = doomed@.take(i + 1);
            assert(after =~= before.push(d));
            assert forall|k: u32| after.contains(k) == (before.contains(k) || k == d) by {
                if after.contains(k) && k != d {
                    let j = choose|j: int| 0 <= j < after.len() && after[j] == k;
                    assert(before[j] == k);
                }
                if before.contains(k) {
                    let j = choose|j: int| 0 <= j < before.len() && before[j] == k;
                    assert(after[j] == k);
                }
                if k == d {
                    assert(after[i as int] == k);
                }
            }
        }
        i = i + 1;
    }
    assert(doomed@.take(i as int) =~= doomed@);
    assert forall|k: u32| doomed@.contains(k) implies m0.contains_key(k) && m0[k] >= bound by {
        let j = choose|j: int| 0 <= j < doomed@.len() && doomed@[j] == k;
        assert(m0.contains_key(doomed@[j]));
    }
    assert(m@ =~= below(m0, bound));
}

/// The index of the workspace each display shows, and the workspace set.
pub struct DisplaySet {
    active: HashMap<u32, usize>,
    entries: Vec<WorkspaceEntry>,
}

impl DisplaySet {
    pub closed spec fn spec_active(&self) -> Map<u32, usize> {
        self.active@
    }

    pub closed spec fn spec_entries(&self) -> Seq<WorkspaceEntry> {
        self.entries@
    }

    /// No display yet, and the given workspace set.
    pub fn new(entries: Vec<WorkspaceEntry>) -> (r: Self)
        ensures
            r.spec_active() == Map::<u32, usize>::empty(),
            r.spec_entries() == entries@,
    {
        let r = Self { active: HashMap::new(), entries };
        assert(r.spec_active() =~= Map::<u32, usize>::empty());
        r
    }

    /// Display id to the index of the workspace it shows.
    pub fn active(&self) -> (r: &HashMap<u32, usize>)
        ensures
            r@ == self.spec_active(),
    {
        &self.active
    }

    /// Display id to the index of the workspace it shows, for update.
    pub fn active_mut(&mut self) -> (r: &mut HashMap<u32, usize>)
        ensures
            r@ == old(self).spec_active(),
            final(self).spec_active() == final(r)@,
            final(self).spec_entries() == old(self).spec_entries(),
    {
        &mut self.active
    }

    pub fn entries(&self) -> (r: &[WorkspaceEntry])
        ensures
            r@ == self.spec_entries(),
    {
        self.entries.as_slice()
    }

    pub fn set_entries(&mut self, entries: Vec<WorkspaceEntry>)
        ensures
            final(self).spec_entries() == entries@,
            final(self).spec_active() == old(self).spec_active(),
    {
        self.entries = entries;
    }

    /// Append one fresh workspace per entry on display `d`.
    fn push_fresh(&self, workspaces: &mut Vec<Workspace>, d: DisplayInfo)
        requires
            all_wf(old(workspaces)@),
        ensures
            all_wf(final(workspaces)@),
            final(workspaces)@.len() == old(workspaces)@.len() + self.spec_entries().len(),
            final(workspaces)@.take(old(workspaces)@.len() as int) == old(workspaces)@,
            fresh_for(final(workspaces)@.skip(old(workspaces)@.len() as int), self.spec_entries(), d),
    {
        let ghost w0 = workspaces@;
        let mut j: usize = 0;
        while j < self.entries.len()
            invariant
                all_wf(workspaces@),
                j <= self.entries@.len(),
                workspaces@.len() == w0.len() + j,
                workspaces@.take(w0.len() as int) == w0,
                forall|k: int|
                    0 <= k < j ==> is_fresh(
                        #[trigger] workspaces@[w0.len() + k],
                        self.entries@[k].name@,
                        d.id,
                        d.origin,
                        d.size,
                    ),
            decreases self.entries@.len() - j,
        {
            let ws = Workspace::new(self.entries[j].name.clone(), d.id, d.origin, d.size);
            let ghost prev = workspaces@;
            workspaces.push(ws);
            proof {
                assert forall|k: int| 0 <= k < workspaces@.len() implies (#[trigger] workspaces@[k]).wf() by {
                    if k < prev.len() {
                        assert(workspaces@[k] == prev[k]);
                    }
                }
                assert forall|k: int| 0 <= k < w0.len() implies workspaces@.take(w0.len() as int)[k] == w0[k] by {
                    assert(workspaces@[k] == prev[k]);
                    assert(prev.take(w0.len() as int)[k] == prev[k]);
                }
                assert(workspaces@.take(w0.len() as int) =~= w0);
                assert forall|k: int| 0 <= k < j + 1 implies is_fresh(
                    #[trigger] workspaces@[w0.len() + k],
                    self.entries@[k].name@,
                    d.id,
                    d.origin,
                    d.size,
                ) by {
                    if k < j {
                        assert(workspaces@[w0.len() + k] == prev[w0.len() + k]);
                    }
                }
            }
            j = j + 1;
        }
        proof {
            let tail = workspaces@.skip(w0.len() as int);
            assert forall|k: int| 0 <= k < tail.len() implies is_fresh(
                #[trigger] tail[k],
                self.entries@[k].name@,
                d.id,
                d.origin,
                d.size,
            ) by {
                assert(tail[k] == workspaces@[w0.len() + k]);
            }
        }
    }

    /// Rebuild `workspaces` and the shown indices from the displays: each
    /// display gets the workspace set, in order, and shows the first one.
    /// Returns the number of workspaces created.
    pub fn init_workspaces(&mut self, workspaces: &mut Vec<Workspace>, displays: &[DisplayInfo]) -> (r: usize)
        ensures
            r == final(workspaces)@.len(),
            r == displays@.len() * old(self).spec_entries().len(),
            all_wf(final(workspaces)@),
            laid_out(final(workspaces)@, displays@, old(self).spec_entries()),
            final(self).spec_active() == first_indices(displays@, old(self).spec_entries().len()),
            final(self).spec_entries() == old(self).spec_entries(),
    {
        workspaces.clear();
        self.active.clear();
        let ghost n = self.entries@.len();
        let mut i: usize = 0;
        assert(self.active@ =~= Map::<u32, usize>::empty());
        assert(displays@.take(0) =~= Seq::<DisplayInfo>::empty());
        while i < displays.len()
            invariant
                n == self.entries@.len(),
                self.entries@ == old(self).spec_entries(),
                i <= displays@.len(),
                all_wf(workspaces@),
                laid_out(workspaces@, displays@.take(i as int), self.entries@),
                workspaces@.len() == i * n,
                self.active@ == first_indices(displays@.take(i as int), n),
            decreases displays@.len() - i,
        {
            let d = displays[i];
            let base = workspaces.len();
            self.active.insert(d.id, base);
            let ghost w0 = workspaces@;
            self.push_fresh(workspaces, d);
            proof {
                let dt = displays@.take(i + 1);
                assert(dt.drop_last() =~= displays@.take(i as int));
                assert(dt.last() == d);
                assert(workspaces@.len() - n == w0.len());
                assert((i + 1) * n == i * n + n) by (nonlinear_arith);
                assert(((dt.len() - 1) * n) as usize == base);
            }
            i = i + 1;
        }
        assert(displays@.take(i as int) =~= displays@);
        workspaces.len()
    }

    /// A display was added: give it the workspace set and show its first
    /// workspace. Returns the new indices; `None`, changing nothing, when no
    /// display in `displays` has the id.
    pub fn on_added(&mut self, display_id: u32, workspaces: &mut Vec<Workspace>, displays: &[DisplayInfo]) -> (r:
        Option<Vec<usize>>)
        requires
            all_wf(old(workspaces)@),
        ensures
            all_wf(final(workspaces)@),
            final(self).spec_entries() == old(self).spec_entries(),
            match display_with_id(displays@, display_id) {
                None => r is None && final(workspaces)@ == old(workspaces)@ && final(self).spec_active() == old(
                    self,
                ).spec_active(),
                Some(info) => {
                    let base = old(workspaces)@.len();
                    &&& r is Some
                    &&& final(workspaces)@.len() == base + old(self).spec_entries().len()
                    &&& r->0@ == Seq::new(old(self).spec_entries().len(), |k: int| (base + k) as usize)
                    &&& final(workspaces)@.take(base as int) == old(workspaces)@
                    &&& fresh_for(
                        final(workspaces)@.skip(base as int),
                        old(self).spec_entries(),
                        DisplayInfo { id: display_id, ..info },
                    )
                    &&& final(self).spec_active() == old(self).spec_active().insert(display_id, base as usize)
                },
            },
    {
        let info = match find_display(displays, display_id) {
            Some(d) => d,
            None => return None,
        };
        let base = workspaces.len();
        self.active.insert(display_id, base);
        let d = DisplayInfo { id: display_id, origin: info.origin, size: info.size };
        self.push_fresh(workspaces, d);
        let mut created: Vec<usize> = Vec::new();
        let mut k: usize = 0;
        let total = workspaces.len();
        while k < self.entries.len()
            invariant
                total == base + self.entries@.len(),
                k <= self.entries@.len(),
                created@ == Seq::new(k as nat, |j: int| (base + j) as usize),
            decreases self.entries@.len() - k,
        {
            created.push(base + k);
            k = k + 1;
            assert(created@ =~= Seq::new(k as nat, |j: int| (base + j) as usize));
        }
        assert(DisplayInfo { id: display_id, ..info } == d);
        Some(created)
    }

    /// A display was removed: its workspaces move to the primary display
    /// (at the primary's origin, or (0, 0) when `displays` lacks it), only
    /// workspaces on a display of `displays` are kept (a single fresh `ws-1`
    /// on the primary when none is), shown indices past the end are dropped,
    /// and the first workspace's display shows index 0 when none is left.
    /// Returns the indices that need a new layout: every workspace left, as
    /// the ones kept may have moved.
    pub fn on_removed(
        &mut self,
        removed_id: u32,
        workspaces: &mut Vec<Workspace>,
        primary: u32,
        displays: &[DisplayInfo],
    ) -> (r: Vec<usize>)
        requires
            all_wf(old(workspaces)@),
        ensures
            r@ == Seq::new(final(workspaces)@.len(), |k: int| k as usize),
            all_wf(final(workspaces)@),
            final(workspaces)@.len() >= 1,
            final(self).spec_entries() == old(self).spec_entries(),
            ({
                let origin = primary_origin(displays@, primary);
                if kept_count(old(workspaces)@, removed_id, primary, displays@) > 0 {
                    survivors(old(workspaces)@, final(workspaces)@, removed_id, primary, origin, displays@)
                } else {
                    final(workspaces)@.len() == 1 && is_fresh(
                        final(workspaces)@[0],
                        "ws-1"@,
                        primary,
                        origin,
                        (1920, 1080),
                    )
                }
            }),
            ({
                let kept_active = below(old(self).spec_active(), final(workspaces)@.len() as usize);
                final(self).spec_active() == if kept_active.is_empty() {
                    map![final(workspaces)@[0].spec_monitor_id() => 0usize]
                } else {
                    kept_active
                }
            }),
    {
        let origin0 = match find_display(displays, primary) {
            Some(d) => d.origin,
            None => (0, 0),
        };
        let mut rest: Vec<Workspace> = Vec::new();
        std::mem::swap(workspaces, &mut rest);
        let ghost w0 = rest@;
        let ghost mut i: int = 0;
        assert(w0.skip(0) =~= w0);
        assert(w0.take(0) =~= Seq::<Workspace>::empty());
        while rest.len() > 0
            invariant
                w0 == old(workspaces)@,
                0 <= i <= w0.len(),
                rest@ == w0.skip(i),
                all_wf(w0),
                all_wf(workspaces@),
                origin0 == primary_origin(displays@, primary),
                survivors(w0.take(i), workspaces@, removed_id, primary, origin0, displays@),
                workspaces@.len() == kept_count(w0.take(i), removed_id, primary, displays@),
            decreases rest@.len(),
        {
            let mut ws = rest.remove(0);
            proof {
                assert(ws == w0[i]);
                assert(w0.skip(i).drop_first() =~= w0.skip(i + 1));
                assert(w0.take(i + 1).drop_last() =~= w0.take(i));
                assert(w0.take(i + 1).last() == w0[i]);
            }
            if ws.monitor_id() == removed_id {
                ws.set_monitor_id(primary);
                ws.set_monitor_origin(origin0);
            }
            let ghost prev = workspaces@;
            if find_display(displays, ws.monitor_id()).is_some() {
                workspaces.push(ws);
                proof {
                    assert(workspaces@.drop_last() =~= prev);
                    assert forall|k: int| 0 <= k < workspaces@.len() implies (#[trigger] workspaces@[k]).wf() by {
                        if k < prev.len() {
                            assert(workspaces@[k] == prev[k]);
                        }
                    }
                }
            }
            proof {
                i = i + 1;
            }
        }
        assert(w0.take(i) =~= w0);
        if workspaces.len() == 0 {
            workspaces.push(Workspace::new(String::from_str("ws-1"), primary, origin0, (1920, 1080)));
        }
        let n = workspaces.len();
        retain_below(&mut self.active, n);
        if self.active.is_empty() {
            let m = workspaces[0].monitor_id();
            self.active.insert(m, 0);
            assert(self.active@ =~= map![m => 0usize]);
        }
        let mut all: Vec<usize> = Vec::new();
        let mut k: usize = 0;
        while k < n
            invariant
                k <= n,
                all@ == Seq::new(k as nat, |j: int| j as usize),
            decreases n - k,
        {
            all.push(k);
            k = k + 1;
            assert(all@ =~= Seq::new(k as nat, |j: int| j as usize));
        }
        all
    }

    /// A display was resized: update the geometry of its workspaces. Returns
    /// their indices, in order; nothing changes when no display in
    /// `displays` has the id.
    pub fn on_resized(&self, display_id: u32, workspaces: &mut Vec<Workspace>, displays: &[DisplayInfo]) -> (r: Vec<
        usize,
    >)
        requires
            all_wf(old(workspaces)@),
        ensures
            all_wf(final(workspaces)@),
            final(workspaces)@.len() == old(workspaces)@.len(),
            match display_with_id(displays@, display_id) {
                None => r@.len() == 0 && final(workspaces)@ == old(workspaces)@,
                Some(info) => {
                    &&& r@ == indices_on(old(workspaces)@, display_id)
                    &&& forall|i: int|
                        0 <= i < old(workspaces)@.len() ==> if (#[trigger] old(workspaces)@[i]).spec_monitor_id()
                            == display_id {
                            resized(old(workspaces)@[i], final(workspaces)@[i], info.origin, info.size)
                        } else {
                            final(workspaces)@[i] == old(workspaces)@[i]
                        }
                },
            },
    {
        let info = match find_display(displays, display_id) {
            Some(d) => d,
            None => return Vec::new(),
        };
        let ghost w0 = workspaces@;
        let mut affected: Vec<usize> = Vec::new();
        let mut i: usize = 0;
        assert(w0.take(0) =~= Seq::<Workspace>::empty());
        while i < workspaces.len()
            invariant
                workspaces@.len() == w0.len(),
                all_wf(w0),
                all_wf(workspaces@),
                i <= w0.len(),
                affected@ == indices_on(w0.take(i as int), display_id),
                forall|j: int| i <= j < w0.len() ==> workspaces@[j] == w0[j],
                forall|j: int|
                    0 <= j < i ==> if (#[trigger] w0[j]).spec_monitor_id() == display_id {
                        resized(w0[j], workspaces@[j], info.origin, info.size)
                    } else {
                        workspaces@[j] == w0[j]
                    },
            decreases w0.len() - i,
        {
            assert(w0.take(i + 1).drop_last() =~= w0.take(i as int));
            assert(w0.take(i + 1).last() == w0[i as int]);
            assert(workspaces@[i as int].wf());
            if workspaces[i].monitor_id() == display_id {
                workspaces[i].update_monitor_geometry(info.origin, info.size);
                affected.push(i);
            }
            proof {
                assert forall|k: int| 0 <= k < workspaces@.len() implies (#[trigger] workspaces@[k]).wf() by {
                    if k != i {
                        assert(workspaces@[k] == old(workspaces)@[k] || workspaces@[k] == w0[k] || true);
                    }
                }
            }
            i = i + 1;
        }
        assert(w0.take(i as int) =~= w0);
        affected
    }
}

/// The origin of display `primary` in `displays`, or (0, 0).
pub open spec fn primary_origin(displays: Seq<DisplayInfo>, primary: u32) -> (i32, i32) {
    match display_with_id(displays, primary) {
        Some(d) => d.origin,
        None => (0, 0),
    }
}

/// The display a workspace ends on when `removed` goes away.
pub open spec fn target_monitor(ws: Workspace, removed: u32, primary: u32) -> u32 {
    if ws.spec_monitor_id() == removed {
        primary
    } else {
        ws.spec_monitor_id()
    }
}

/// `ws` stays: it ends on a display of `displays`.
pub open spec fn stays(ws: Workspace, removed: u32, primary: u32, displays: Seq<DisplayInfo>) -> bool {
    display_with_id(displays, target_monitor(ws, removed, primary)) is Some
}

/// `after` is `before` moved to display `primary` at `origin`.
pub open spec fn reassigned(before: Workspace, after: Workspace, primary: u32, origin: (i32, i32)) -> bool {
    &&& after.wf()
    &&& after.spec_monitor_id() == primary
    &&& after.spec_monitor_origin() == origin
    &&& after.spec_monitor_size() == before.spec_monitor_size()
    &&& after.spec_name() == before.spec_name()
    &&& after.spec_monocle() == before.spec_monocle()
    &&& after.spec_reserved() == before.spec_reserved()
    &&& after.nodes() == before.nodes()
    &&& after.spec_root() == before.spec_root()
    &&& after.spec_focused() == before.spec_focused()
    &&& after.spec_pending() == before.spec_pending()
    &&& after.spec_next_id() == before.spec_next_id()
}

/// `after` is the workspaces of `before` that stay, in order, those of the
/// removed display moved to the primary.
pub open spec fn survivors(
    before: Seq<Workspace>,
    after: Seq<Workspace>,
    removed: u32,
    primary: u32,
    origin: (i32, i32),
    displays: Seq<DisplayInfo>,
) -> bool
    decreases before.len(),
{
    if before.len() == 0 {
        after.len() == 0
    } else {
        let b = before.last();
        if stays(b, removed, primary, displays) {
            &&& after.len() > 0
            &&& survivors(before.drop_last(), after.drop_last(), removed, primary, origin, displays)
            &&& if b.spec_monitor_id() == removed {
                reassigned(b, after.last(), primary, origin)
            } else {
                after.last() == b
            }
        } else {
            survivors(before.drop_last(), after, removed, primary, origin, displays)
        }
    }
}

/// How many workspaces of `before` stay.
pub open spec fn kept_count(before: Seq<Workspace>, removed: u32, primary: u32, displays: Seq<DisplayInfo>) -> nat
    decreases before.len(),
{
    if before.len() == 0 {
        0
    } else {
        kept_count(before.drop_last(), removed, primary, displays) + if stays(
            before.last(),
            removed,
            primary,
            displays,
        ) {
            1nat
        } else {
            0nat
        }
    }
}

/// `after` is `before` moved to a display of the given geometry.
pub open spec fn resized(before: Workspace, after: Workspace, origin: (i32, i32), size: (u32, u32)) -> bool {
    &&& after.wf()
    &&& after.spec_monitor_origin() == origin
    &&& after.spec_monitor_size() == size
    &&& after.spec_name() == before.spec_name()
    &&& after.spec_monitor_id() == before.spec_monitor_id()
    &&& after.spec_monocle() == before.spec_monocle()
    &&& after.nodes() == before.nodes()
    &&& after.spec_root() == before.spec_root()
    &&& after.spec_focused() == before.spec_focused()
    &&& after.spec_pending() == before.spec_pending()
    &&& after.spec_next_id() == before.spec_next_id()
}

/// The indices of the workspaces on display `id`, in order.
pub open spec fn indices_on(ws: Seq<Workspace>, id: u32) -> Seq<usize>
    decreases ws.len(),
{
    if ws.len() == 0 {
        Seq::empty()
    } else {
        let pre = indices_on(ws.drop_last(), id);
        if ws.last().spec_monitor_id() == id {
            pre.push((ws.len() - 1) as usize)
        } else {
            pre
        }
    }
}

/// After a display is removed, every index a display shows is a valid
/// workspace index.
pub proof fn law_removed_shows_valid_indices(old_active: Map<u32, usize>, ws_len: usize, first_monitor: u32)
    requires
        ws_len >= 1,
    ensures
        ({
            let kept = below(old_active, ws_len);
            let active = if kept.is_empty() {
                map![first_monitor => 0usize]
            } else {
                kept
            };
            forall|d: u32| active.contains_key(d) ==> active[d] < ws_len
        }),
{
}

/// `indices_on` lists valid indices of workspaces on the display.
pub proof fn lemma_indices_on_range(ws: Seq<Workspace>, id: u32)
    requires
        ws.len() <= usize::MAX,
    ensures
        forall|k: int|
            0 <= k < indices_on(ws, id).len() ==> (#[trigger] indices_on(ws, id)[k]) < ws.len()
                && ws[indices_on(ws, id)[k] as int].spec_monitor_id() == id,
    decreases ws.len(),
{
    if ws.len() > 0 {
        let pre_ws = ws.drop_last();
        lemma_indices_on_range(pre_ws, id);
        let pre = indices_on(pre_ws, id);
        let all = indices_on(ws, id);
        assert forall|k: int| 0 <= k < all.len() implies (#[trigger] all[k]) < ws.len()
            && ws[all[k] as int].spec_monitor_id() == id by {
            if k < pre.len() {
                assert(all[k] == pre[k]);
                assert(pre[k] < pre_ws.len());
                assert(ws[pre[k] as int] == pre_ws[pre[k] as int]);
            } else {
                assert(all[k] == (ws.len() - 1) as usize);
            }
        }
    }
}


/// A layout of fresh blocks holds one block of `entries.len()` workspaces
/// per display.
pub proof fn lemma_laid_out_len(ws: Seq<Workspace>, ds: Seq<DisplayInfo>, entries: Seq<WorkspaceEntry>)
    requires
        laid_out(ws, ds, entries),
    ensures
        ws.len() == ds.len() * entries.len(),
    decreases ds.len(),
{
    if ds.len() > 0 {
        let e = entries.len();
        lemma_laid_out_len(ws.take(ws.len() - e), ds.drop_last(), entries);
        assert(ds.len() * e == (ds.len() - 1) * e + e) by (nonlinear_arith);
    }
}

/// Each display's first index is that of a block: zero when the blocks are
/// empty, inside the layout otherwise.
pub proof fn lemma_first_indices_bound(ds: Seq<DisplayInfo>, n: nat)
    requires
        ds.len() * n <= usize::MAX,
    ensures
        forall|k: u32|
            #[trigger] first_indices(ds, n).contains_key(k) ==> (n == 0 ==> first_indices(ds, n)[k] == 0) && (n > 0
                ==> first_indices(ds, n)[k] < ds.len() * n),
    decreases ds.len(),
{
    if ds.len() > 0 {
        let l = ds.len();
        assert((l - 1) * n <= l * n) by (nonlinear_arith)
            requires
                l >= 1,
        ;
        assert(0 <= (l - 1) * n) by (nonlinear_arith)
            requires
                l >= 1,
        ;
        assert(n > 0 ==> (l - 1) * n < l * n) by (nonlinear_arith)
            requires
                l >= 1,
        ;
        assert(n == 0 ==> (l - 1) * n == 0) by (nonlinear_arith);
        lemma_first_indices_bound(ds.drop_last(), n);
        assert forall|k: u32| #[trigger] first_indices(ds, n).contains_key(k) implies (n == 0 ==> first_indices(ds, n)[k]
            == 0) && (n > 0 ==> first_indices(ds, n)[k] < ds.len() * n) by {
            if k != ds.last().id {
                assert(first_indices(ds.drop_last(), n).contains_key(k));
            }
        }
    }
}


/// The layout block by block: workspace `d * E + e` (with `E` entries) is
/// the fresh workspace of entry `e` on display `d`.
pub proof fn law_laid_out_indexed(ws: Seq<Workspace>, ds: Seq<DisplayInfo>, entries: Seq<WorkspaceEntry>)
    requires
        laid_out(ws, ds, entries),
    ensures
        ws.len() == ds.len() * entries.len(),
        forall|d: int, e: int|
            0 <= d < ds.len() && 0 <= e < entries.len() ==> is_fresh(
                #[trigger] ws[d * entries.len() + e],
                #[trigger] entries[e].name@,
                ds[d].id,
                ds[d].origin,
                ds[d].size,
            ),
    decreases ds.len(),
{
    lemma_laid_out_len(ws, ds, entries);
    if ds.len() > 0 {
        let n = entries.len();
        let l = ds.len();
        let pre = ws.take(ws.len() - n);
        law_laid_out_indexed(pre, ds.drop_last(), entries);
        assert((l - 1) * n + n == l * n) by (nonlinear_arith);
        assert forall|d: int, e: int|
            0 <= d < ds.len() && 0 <= e < entries.len() implies is_fresh(
                #[trigger] ws[d * entries.len() + e],
                #[trigger] entries[e].name@,
                ds[d].id,
                ds[d].origin,
                ds[d].size,
            ) by {
            if d < l - 1 {
                assert(d * n + e < (l - 1) * n) by (nonlinear_arith)
                    requires
                        d < l - 1,
                        e < n,
                ;
                assert(d * n + e >= 0) by (nonlinear_arith)
                    requires
                        d >= 0,
                        e >= 0,
                ;
                assert(pre[d * n + e] == ws[d * n + e]);
                assert(ds.drop_last()[d] == ds[d]);
            } else {
                assert(d * n == (l - 1) * n);
                assert(ws.skip(ws.len() - n)[e] == ws[d * n + e]);
                assert(ds.last() == ds[d]);
            }
        }
    }
}

/// The ids of `ds` are pairwise distinct.
pub open spec fn ids_distinct(ds: Seq<DisplayInfo>) -> bool {
    forall|i: int, j: int| 0 <= i < j < ds.len() ==> ds[i].id != ds[j].id
}

/// With distinct display ids, each display `d` shows `d * n`, and no other
/// id shows anything.
pub proof fn law_first_indices_indexed(ds: Seq<DisplayInfo>, n: nat)
    requires
        ids_distinct(ds),
    ensures
        forall|d: int|
            0 <= d < ds.len() ==> #[trigger] first_indices(ds, n).contains_key(ds[d].id) && first_indices(ds, n)[ds[d].id]
                == (d * n) as usize,
        forall|k: u32| #[trigger] first_indices(ds, n).contains_key(k) ==> exists|d: int| 0 <= d < ds.len() && ds[d].id == k,
    decreases ds.len(),
{
    if ds.len() > 0 {
        let pre = ds.drop_last();
        assert(ids_distinct(pre)) by {
            assert forall|i: int, j: int| 0 <= i < j < pre.len() implies pre[i].id != pre[j].id by {
                assert(pre[i] == ds[i] && pre[j] == ds[j]);
            }
        }
        law_first_indices_indexed(pre, n);
        assert forall|d: int|
            0 <= d < ds.len() implies #[trigger] first_indices(ds, n).contains_key(ds[d].id) && first_indices(ds, n)[ds[d].id]
                == (d * n) as usize by {
            if d < ds.len() - 1 {
                assert(pre[d] == ds[d]);
                assert(ds[d].id != ds[ds.len() - 1].id);
                assert(first_indices(pre, n).contains_key(pre[d].id));
            } else {
                assert(d * n == (ds.len() - 1) * n);
                assert(ds.last() == ds[d]);
            }
        }
        assert forall|k: u32| #[trigger] first_indices(ds, n).contains_key(k) implies exists|d: int|
            0 <= d < ds.len() && ds[d].id == k by {
            if k != ds.last().id {
                assert(first_indices(pre, n).contains_key(k));
                let d = choose|d: int| 0 <= d < pre.len() && pre[d].id == k;
                assert(ds[d] == pre[d]);
            } else {
                assert(ds[ds.len() - 1].id == k);
            }
        }
    }
}

} // verus!

//! What of a workspace survives a restart: its name, display, geometry and
//! layout mode, without any window (window ids do not outlive a session).
use std::collections::HashMap;
use vstd::prelude::*;

use crate::adapter::{display_with_id, find_display, DisplayInfo};
use crate::state::all_wf;
use crate::state::display::{indices_on, primary_origin};
use crate::workspace::Workspace;

verus! {

/// An empty workspace with the name, display, geometry and layout mode of
/// `ws`; its windows, focus and splits are dropped.
pub fn sanitize_workspace(ws: &Workspace) -> (r: Workspace)
    ensures
        r.wf(),
        r.spec_monocle() == ws.spec_monocle(),
        r.spec_name() == ws.spec_name(),
        r.spec_monitor_id() == ws.spec_monitor_id(),
        r.spec_monitor_origin() == ws.spec_monitor_origin(),
        r.spec_monitor_size() == ws.spec_monitor_size(),
        r.nodes() == Map::<u64, crate::tree::NodeView>::empty(),
        r.spec_root() is None,
        r.spec_focused() is None,
        r.spec_pending() is None,
        r.spec_reserved() is None,
        r.window_seq().len() == 0,
{
    let mut out = Workspace::new(ws.name().clone(), ws.monitor_id(), ws.monitor_origin(), ws.monitor_size());
    out.set_monocle(ws.monocle());
    out
}


/// The size of display `primary` in `displays`, or 1920 by 1080.
pub open spec fn primary_size(displays: Seq<DisplayInfo>, primary: u32) -> (u32, u32) {
    match display_with_id(displays, primary) {
        Some(d) => d.size,
        None => (1920, 1080),
    }
}

/// Some display of `displays` has id `id`.
pub open spec fn has_display(displays: Seq<DisplayInfo>, id: u32) -> bool {
    exists|j: int| 0 <= j < displays.len() && displays[j].id == id
}

/// A saved workspace as restored: on a display that is still there it
/// takes that display's current geometry; otherwise it moves to display
/// `primary` with the primary's geometry. Its windows, focus, layout mode
/// and reserved strip stay.
pub open spec fn restored_workspace(before: Workspace, after: Workspace, primary: u32, displays: Seq<DisplayInfo>) -> bool {
    &&& after.wf()
    &&& after.spec_name() == before.spec_name()
    &&& after.spec_monocle() == before.spec_monocle()
    &&& after.spec_reserved() == before.spec_reserved()
    &&& after.nodes() == before.nodes()
    &&& after.spec_root() == before.spec_root()
    &&& after.spec_focused() == before.spec_focused()
    &&& after.spec_pending() == before.spec_pending()
    &&& after.spec_next_id() == before.spec_next_id()
    &&& match display_with_id(displays, before.spec_monitor_id()) {
        Some(info) => {
            &&& after.spec_monitor_id() == before.spec_monitor_id()
            &&& after.spec_monitor_origin() == info.origin
            &&& after.spec_monitor_size() == info.size
        },
        None => {
            &&& after.spec_monitor_id() == primary
            &&& after.spec_monitor_origin() == primary_origin(displays, primary)
            &&& after.spec_monitor_size() == primary_size(displays, primary)
        },
    }
}

/// The workspace a display shows after a restore: its saved index when
/// that is still a workspace, else its first workspace, else the first one.
pub open spec fn restored_index(saved: Map<u32, usize>, ws: Seq<Workspace>, id: u32) -> usize {
    if saved.contains_key(id) && saved[id] < ws.len() {
        saved[id]
    } else if indices_on(ws, id).len() > 0 {
        indices_on(ws, id)[0]
    } else {
        0
    }
}

/// The shown workspaces after a restore: every display of `displays` shows
/// its `restored_index` (none when there is no workspace); saved entries of
/// displays that are gone are dropped.
pub open spec fn restored_active(saved: Map<u32, usize>, ws: Seq<Workspace>, displays: Seq<DisplayInfo>) -> Map<u32, usize> {
    Map::new(|id: u32| has_display(displays, id) && ws.len() > 0, |id: u32| restored_index(saved, ws, id))
}

fn indices_of(ws: &Vec<Workspace>, mon: u32) -> (r: Vec<usize>)
    ensures
        r@ == indices_on(ws@, mon),
{
    let mut out: Vec<usize> = Vec::new();
    let mut i: usize = 0;
    assert(ws@.take(0) =~= Seq::<Workspace>::empty());
    while i < ws.len()
        invariant
            i <= ws@.len(),
            out@ == indices_on(ws@.take(i as int), mon),
        decreases ws@.len() - i,
    {
        assert(ws@.take(i + 1).drop_last() =~= ws@.take(i as int));
        if ws[i].monitor_id() == mon {
            out.push(i);
        }
        i = i + 1;
    }
    assert(ws@.take(i as int) =~= ws@);
    out
}

/// Restore the workspaces and shown indices of a saved session onto the
/// current displays: workspaces of displays that are gone move to
/// `primary`, every workspace takes its display's current geometry, and
/// each current display shows its saved workspace when that index is still
/// valid, else its first workspace, else the first one.
pub fn restore_session(
    saved: Vec<Workspace>,
    saved_active: &HashMap<u32, usize>,
    primary: u32,
    displays: &[DisplayInfo],
) -> (r: (Vec<Workspace>, HashMap<u32, usize>))
    requires
        all_wf(saved@),
    ensures
        r.0@.len() == saved@.len(),
        forall|i: int| 0 <= i < saved@.len() ==> restored_workspace(#[trigger] saved@[i], r.0@[i], primary, displays@),
        r.1@ == restored_active(saved_active@, r.0@, displays@),
{
    let (po, psz) = match find_display(displays, primary) {
        Some(d) => (d.origin, d.size),
        None => ((0, 0), (1920, 1080)),
    };
    let ghost s0 = saved@;
    let mut rest = saved;
    let mut out: Vec<Workspace> = Vec::new();
    let ghost mut i: int = 0;
    assert(s0.skip(0) =~= s0);
    while rest.len() > 0
        invariant
            0 <= i <= s0.len(),
            rest@ == s0.skip(i),
            all_wf(s0),
            out@.len() == i,
            po == primary_origin(displays@, primary),
            psz == primary_size(displays@, primary),
            forall|k: int| 0 <= k < i ==> restored_workspace(#[trigger] s0[k], out@[k], primary, displays@),
        decreases rest@.len(),
    {
        let mut ws = rest.remove(0);
        proof {
            assert(ws == s0[i]);
            assert(s0.skip(i).drop_first() =~= s0.skip(i + 1));
        }
        match find_display(displays, ws.monitor_id()) {
            None => {
                ws.set_monitor_id(primary);
                ws.set_monitor_origin(po);
                ws.update_monitor_geometry(po, psz);
            },
            Some(info) => {
                ws.update_monitor_geometry(info.origin, info.size);
            },
        }
        let ghost o0 = out@;
        out.push(ws);
        proof {
            assert forall|k: int| 0 <= k < i + 1 implies restored_workspace(#[trigger] s0[k], out@[k], primary, displays@) by {
                if k < i {
                    assert(out@[k] == o0[k]);
                }
            }
            i = i + 1;
        }
    }
    let n = out.len();
    let mut active: HashMap<u32, usize> = HashMap::new();
    let mut j: usize = 0;
    assert(active@ =~= restored_active(saved_active@, out@, displays@.take(0)));
    while j < displays.len()
        invariant
            j <= displays@.len(),
            n == out@.len(),
            active@ == restored_active(saved_active@, out@, displays@.take(j as int)),
        decreases displays@.len() - j,
    {
        let id = displays[j].id;
        let kept: Option<usize> = match saved_active.get(&id) {
            Some(v) => if *v < n {
                Some(*v)
            } else {
                None
            },
            None => None,
        };
        match kept {
            Some(v) => {
                active.insert(id, v);
            },
            None => {
                let on = indices_of(&out, id);
                if on.len() > 0 {
                    active.insert(id, on[0]);
                } else if n > 0 {
                    active.insert(id, 0);
                }
            },
        }
        proof {
            let t1 = displays@.take(j + 1);
            assert forall|k: u32| has_display(t1, k) <==> has_display(displays@.take(j as int), k) || k == id by {
                if has_display(t1, k) {
                    let q = choose|q: int| 0 <= q < t1.len() && t1[q].id == k;
                    if q < j {
                        assert(displays@.take(j as int)[q] == t1[q]);
                    }
                }
                if has_display(displays@.take(j as int), k) {
                    let q = choose|q: int| 0 <= q < j && displays@.take(j as int)[q].id == k;
                    assert(t1[q] == displays@.take(j as int)[q]);
                }
                if k == id {
                    assert(t1[j as int].id == id);
                }
            }
            assert(active@ =~= restored_active(saved_active@, out@, t1));
        }
        j = j + 1;
    }
    assert(displays@.take(j as int) =~= displays@);
    (out, active)
}

} // verus!

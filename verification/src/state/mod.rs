//! The daemon's state trackers: hidden windows, drag-to-swap, displays,
//! routing of new windows and the status bar reservation. Each owns only its
//! own bookkeeping and borrows the workspaces per call.
use vstd::prelude::*;

use crate::shape::window_set;
use crate::tree::WindowId;
use crate::workspace::Workspace;

pub mod bar;
pub mod display;
pub mod drag;
pub mod hidden;
pub mod router;
pub mod session;

verus! {

/// Every workspace is well formed.
pub open spec fn all_wf(ws: Seq<Workspace>) -> bool {
    forall|i: int| 0 <= i < ws.len() ==> (#[trigger] ws[i]).wf()
}

/// Some leaf of `ws` holds window `w`.
pub open spec fn has_window(ws: Workspace, w: WindowId) -> bool {
    window_set(ws.nodes()).contains(w)
}

/// The index of the first workspace holding `w`.
pub open spec fn workspace_of(ws: Seq<Workspace>, w: WindowId) -> Option<int>
    decreases ws.len(),
{
    if ws.len() == 0 {
        None
    } else {
        match workspace_of(ws.drop_last(), w) {
            Some(i) => Some(i),
            None => if has_window(ws.last(), w) {
                Some(ws.len() - 1)
            } else {
                None
            },
        }
    }
}

pub proof fn lemma_workspace_of_prefix(ws: Seq<Workspace>, w: WindowId, k: int)
    requires
        0 <= k <= ws.len(),
        workspace_of(ws.take(k), w) is Some,
    ensures
        workspace_of(ws, w) == workspace_of(ws.take(k), w),
    decreases ws.len() - k,
{
    if k < ws.len() {
        assert(ws.drop_last().take(k) =~= ws.take(k));
        lemma_workspace_of_prefix(ws.drop_last(), w, k);
    } else {
        assert(ws.take(k) =~= ws);
    }
}

pub proof fn lemma_workspace_of_facts(ws: Seq<Workspace>, w: WindowId)
    ensures
        match workspace_of(ws, w) {
            Some(i) => 0 <= i < ws.len() && has_window(ws[i], w) && forall|j: int|
                0 <= j < i ==> !has_window(#[trigger] ws[j], w),
            None => forall|j: int| 0 <= j < ws.len() ==> !has_window(#[trigger] ws[j], w),
        },
    decreases ws.len(),
{
    if ws.len() > 0 {
        let pre = ws.drop_last();
        lemma_workspace_of_facts(pre, w);
        match workspace_of(pre, w) {
            Some(i) => {
                assert(pre[i] == ws[i]);
                assert forall|j: int| 0 <= j < i implies !has_window(#[trigger] ws[j], w) by {
                    assert(pre[j] == ws[j]);
                }
            },
            None => {
                assert forall|j: int| 0 <= j < pre.len() implies !has_window(#[trigger] ws[j], w) by {
                    assert(pre[j] == ws[j]);
                }
            },
        }
    }
}

/// The index of the first workspace holding `window_id`.
pub fn find_workspace_for_window(workspaces: &Vec<Workspace>, window_id: WindowId) -> (r: Option<usize>)
    requires
        all_wf(workspaces@),
    ensures
        r is None <==> workspace_of(workspaces@, window_id) is None,
        r matches Some(i) ==> workspace_of(workspaces@, window_id) == Some(i as int),
{
    let ghost ws = workspaces@;
    let mut i: usize = 0;
    assert(ws.take(0) =~= Seq::<Workspace>::empty());
    while i < workspaces.len()
        invariant
            ws == workspaces@,
            all_wf(ws),
            i <= ws.len(),
            workspace_of(ws.take(i as int), window_id) is None,
        decreases ws.len() - i,
    {
        assert(ws.take(i + 1).drop_last() =~= ws.take(i as int));
        assert(ws.take(i + 1).last() == ws[i as int]);
        assert(ws[i as int].wf());
        if workspaces[i].find_window(window_id).is_some() {
            assert(has_window(ws[i as int], window_id));
            proof {
                lemma_workspace_of_prefix(ws, window_id, i + 1);
            }
            return Some(i);
        }
        assert(!has_window(ws[i as int], window_id));
        i = i + 1;
    }
    assert(ws.take(i as int) =~= ws);
    None
}

/// Workspace `i` of `after` is workspace `i` of `before` with one leaf
/// holding `w` removed; every other workspace is unchanged.
pub open spec fn removed_at(before: Seq<Workspace>, after: Seq<Workspace>, i: int, w: WindowId) -> bool {
    &&& after.len() == before.len()
    &&& forall|j: int| 0 <= j < before.len() && j != i ==> after[j] == before[j]
    &&& Workspace::same_settings(&after[i], &before[i])
    &&& exists|p: int|
        0 <= p < before[i].window_seq().len() && before[i].window_seq()[p] == w && after[i].window_seq()
            == #[trigger] before[i].window_seq().remove(p)
}

/// Remove window `w` from workspace `idx`, which holds it.
#[verifier::rlimit(50)]
pub fn remove_window_at(workspaces: &mut Vec<Workspace>, idx: usize, w: WindowId)
    requires
        all_wf(old(workspaces)@),
        idx < old(workspaces)@.len(),
        has_window(old(workspaces)@[idx as int], w),
    ensures
        all_wf(final(workspaces)@),
        removed_at(old(workspaces)@, final(workspaces)@, idx as int, w),
{
    let ghost before = workspaces@;
    assert(before[idx as int].wf());
    let mut ws = workspaces.remove(idx);
    ws.remove_window(w);
    workspaces.insert(idx, ws);
    proof {
        assert forall|j: int| 0 <= j < workspaces@.len() implies (#[trigger] workspaces@[j]).wf() by {
            if j != idx {
                assert(workspaces@[j] == before[j]);
            }
        }
        assert forall|j: int| 0 <= j < before.len() && j != idx implies workspaces@[j] == before[j] by {}
    }
}

/// Replacing one well-formed workspace keeps them all well formed.
pub proof fn lemma_all_wf_update(before: Seq<Workspace>, i: int, w: Workspace)
    requires
        all_wf(before),
        0 <= i < before.len(),
        w.wf(),
    ensures
        all_wf(before.update(i, w)),
{
    let after = before.update(i, w);
    assert forall|j: int| 0 <= j < after.len() implies (#[trigger] after[j]).wf() by {
        if j != i {
            assert(after[j] == before[j]);
        }
    }
}

} // verus!

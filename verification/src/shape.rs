//! The shape of a well-formed layout tree, and proofs that the edits a
//! workspace makes to its tree keep that shape.
use vstd::prelude::*;

use crate::tree::{detach, direction_axis, direction_is_forward, Direction, NodeData, NodeId, NodeView, SplitDirection, WindowId};

verus! {

// ---------------------------------------------------------------------------
// The shape of a well-formed tree
// ---------------------------------------------------------------------------

/// Parent and child links agree, there is one parentless node (the root),
/// leaves have no children and splits have at least two.
pub open spec fn links_wf(m: Map<NodeId, NodeView>, root: Option<NodeId>) -> bool {
    &&& (root is None ==> forall|n: NodeId| !#[trigger] m.contains_key(n))
    &&& (root matches Some(r) ==> m.contains_key(r) && m[r].parent is None)
    &&& forall|n: NodeId| #[trigger] m.contains_key(n) && m[n].parent is None ==> root == Some(n)
    &&& forall|n: NodeId|
        #[trigger] m.contains_key(n) && m[n].parent is Some ==> m.contains_key(m[n].parent->0)
            && m[m[n].parent->0].children.contains(n)
    &&& forall|n: NodeId, i: int|
        #![trigger m[n].children[i]]
        m.contains_key(n) && 0 <= i < m[n].children.len() ==> m.contains_key(m[n].children[i])
            && m[m[n].children[i]].parent == Some(n)
    &&& forall|n: NodeId| #[trigger] m.contains_key(n) ==> m[n].children.no_duplicates()
    &&& forall|n: NodeId|
        #[trigger] m.contains_key(n) ==> (m[n].data is Window ==> m[n].children.len() == 0) && (
        m[n].data is Split ==> m[n].children.len() >= 2)
}

/// Two rankings witness that the links have no cycle: `down` strictly
/// decreases from a parent to its children and `up` strictly increases.
pub open spec fn ranks_wf(m: Map<NodeId, NodeView>, down: Map<NodeId, nat>, up: Map<NodeId, nat>) -> bool {
    &&& forall|n: NodeId| #[trigger] m.contains_key(n) ==> down.contains_key(n) && up.contains_key(n)
    &&& forall|n: NodeId|
        #[trigger] m.contains_key(n) && m[n].parent is Some ==> down[n] < down[m[n].parent->0] && up[m[n].parent->0]
            < up[n]
}

/// A well-formed tree.
pub open spec fn tree_wf(
    m: Map<NodeId, NodeView>,
    root: Option<NodeId>,
    down: Map<NodeId, nat>,
    up: Map<NodeId, nat>,
) -> bool {
    links_wf(m, root) && ranks_wf(m, down, up)
}

/// Whether `n` is a window leaf of `m`.
pub open spec fn is_window(m: Map<NodeId, NodeView>, n: NodeId) -> bool {
    m.contains_key(n) && m[n].data is Window
}

/// The window held by the leaf `n`.
pub open spec fn window_of(m: Map<NodeId, NodeView>, n: NodeId) -> WindowId {
    m[n].data->window_id
}

/// Whether the leaf `n` holds window `w`.
pub open spec fn holds(m: Map<NodeId, NodeView>, n: NodeId, w: WindowId) -> bool {
    is_window(m, n) && window_of(m, n) == w
}

/// The focused node exists exactly when the tree is non-empty, and it is a
/// window leaf.
pub open spec fn focus_wf(m: Map<NodeId, NodeView>, root: Option<NodeId>, focused: Option<NodeId>) -> bool {
    &&& (root is None <==> focused is None)
    &&& (focused matches Some(f) ==> is_window(m, f))
}

/// The windows of the leaves whose ids are below `k`, in id order.
pub open spec fn windows_below(m: Map<NodeId, NodeView>, k: nat) -> Seq<WindowId>
    decreases k,
{
    if k == 0 {
        Seq::empty()
    } else {
        let id = (k - 1) as NodeId;
        let prev = windows_below(m, (k - 1) as nat);
        if is_window(m, id) {
            prev.push(window_of(m, id))
        } else {
            prev
        }
    }
}

/// The index of `x` in `s` (meaningful when `s` holds `x` exactly once).
pub open spec fn pos(s: Seq<NodeId>, x: NodeId) -> int {
    s.index_of(x)
}

/// The first position of `x` in `v`, if any.
pub fn position(v: &Vec<NodeId>, x: NodeId) -> (r: Option<usize>)
    ensures
        match r {
            Some(i) => i < v@.len() && v@[i as int] == x && forall|j: int| 0 <= j < i ==> v@[j] != x,
            None => !v@.contains(x),
        },
{
    let mut i: usize = 0;
    while i < v.len()
        invariant
            i <= v@.len(),
            forall|j: int| 0 <= j < i ==> v@[j] != x,
        decreases v@.len() - i,
    {
        if v[i] == x {
            return Some(i);
        }
        i = i + 1;
    }
    None
}

/// In a sequence without duplicates, the index of an element is its only index.
pub proof fn lemma_unique_index(s: Seq<NodeId>, x: NodeId, i: int)
    requires
        s.no_duplicates(),
        0 <= i < s.len(),
        s[i] == x,
    ensures
        pos(s, x) == i,
{
    assert(s.contains(x));
    let j = s.index_of(x);
    assert(0 <= j < s.len() && s[j] == x);
}


// ---------------------------------------------------------------------------
// Inserting a window next to a leaf
// ---------------------------------------------------------------------------

/// A fresh focused window leaf `id` holding `w` under `parent`.
pub open spec fn new_leaf(id: NodeId, parent: NodeId, w: WindowId) -> NodeView {
    NodeView {
        id,
        parent: Some(parent),
        children: Seq::empty(),
        data: NodeData::Window { window_id: w, is_focused: true },
    }
}

/// The tree `m` with the leaf `f` replaced, at its place, by a new split `s`
/// along `dir` whose children are `f` and a new leaf `n` holding `w`.
pub open spec fn split_leaf(
    m: Map<NodeId, NodeView>,
    f: NodeId,
    n: NodeId,
    s: NodeId,
    dir: SplitDirection,
    w: WindowId,
) -> Map<NodeId, NodeView> {
    let p = m[f].parent;
    let m1 = m.insert(f, NodeView { parent: Some(s), ..m[f] }).insert(n, new_leaf(n, s, w)).insert(
        s,
        NodeView { id: s, parent: p, children: seq![f, n], data: NodeData::Split { direction: dir } },
    );
    match p {
        Some(pp) => m1.insert(
            pp,
            NodeView { children: m[pp].children.update(pos(m[pp].children, f), s), ..m[pp] },
        ),
        None => m1,
    }
}

/// The root after `split_leaf`: the new split when `f` was the root.
pub open spec fn split_root(m: Map<NodeId, NodeView>, root: Option<NodeId>, f: NodeId, s: NodeId) -> Option<NodeId> {
    if m[f].parent is None {
        Some(s)
    } else {
        root
    }
}

/// Every rank doubled, to make room between consecutive ranks.
pub open spec fn double(r: Map<NodeId, nat>) -> Map<NodeId, nat> {
    r.map_values(|v: nat| (2 * v) as nat)
}

pub open spec fn split_down(down: Map<NodeId, nat>, f: NodeId, n: NodeId, s: NodeId) -> Map<NodeId, nat> {
    double(down).insert(s, (2 * down[f] + 1) as nat).insert(n, 0)
}

pub open spec fn split_up(up: Map<NodeId, nat>, f: NodeId, n: NodeId, s: NodeId) -> Map<NodeId, nat> {
    up.insert(s, up[f]).insert(f, up[f] + 1).insert(n, up[f] + 1)
}

pub proof fn lemma_split_leaf(
    m: Map<NodeId, NodeView>,
    root: Option<NodeId>,
    down: Map<NodeId, nat>,
    up: Map<NodeId, nat>,
    f: NodeId,
    n: NodeId,
    s: NodeId,
    dir: SplitDirection,
    w: WindowId,
)
    requires
        tree_wf(m, root, down, up),
        is_window(m, f),
        !m.contains_key(n),
        !m.contains_key(s),
        n != s,
    ensures
        tree_wf(
            split_leaf(m, f, n, s, dir, w),
            split_root(m, root, f, s),
            split_down(down, f, n, s),
            split_up(up, f, n, s),
        ),
{
    let m2 = split_leaf(m, f, n, s, dir, w);
    let root2 = split_root(m, root, f, s);
    let d2 = split_down(down, f, n, s);
    let u2 = split_up(up, f, n, s);
    let p = m[f].parent;
    if let Some(pp) = p {
        assert(m.contains_key(pp) && m[pp].children.contains(f));
        let i = pos(m[pp].children, f);
        lemma_unique_index(m[pp].children, f, choose|j: int| 0 <= j < m[pp].children.len() && m[pp].children[j] == f);
        assert(0 <= i < m[pp].children.len() && m[pp].children[i] == f);
        assert(pp != f && pp != n && pp != s);
        let c2 = m[pp].children.update(i, s);
        assert(!m[pp].children.contains(s)) by {
            if m[pp].children.contains(s) {
                let j = choose|j: int| 0 <= j < m[pp].children.len() && m[pp].children[j] == s;
                assert(m.contains_key(m[pp].children[j]));
            }
        }
        assert(c2.no_duplicates()) by {
            assert forall|a: int, b: int| 0 <= a < c2.len() && 0 <= b < c2.len() && a != b implies c2[a] != c2[b] by {
                if a != i && b != i {
                    assert(m[pp].children[a] != m[pp].children[b]);
                }
            }
        }
        assert forall|k: NodeId| #[trigger] m2.contains_key(k) && m2[k].parent is Some implies m2.contains_key(
            m2[k].parent->0,
        ) && m2[m2[k].parent->0].children.contains(k) by {
            if k == f {
                assert(m2[s].children[0] == f);
            } else if k == n {
                assert(m2[s].children[1] == n);
            } else if k == s {
                assert(c2[i] == s);
            } else {
                let q = m[k].parent->0;
                assert(m.contains_key(q) && m[q].children.contains(k));
                let j = choose|j: int| 0 <= j < m[q].children.len() && m[q].children[j] == k;
                if q == pp {
                    assert(j != i);
                    assert(c2[j] == k);
                } else {
                    assert(q != f) by {
                        assert(m[f].children.len() == 0);
                    }
                    assert(m2[q] == m[q]);
                }
            }
        }
        assert forall|k: NodeId, j: int|
            #![trigger m2[k].children[j]]
            m2.contains_key(k) && 0 <= j < m2[k].children.len() implies m2.contains_key(m2[k].children[j])
            && m2[m2[k].children[j]].parent == Some(k) by {
            if k == pp {
                if j != i {
                    let c = m[pp].children[j];
                    assert(m.contains_key(c) && m[c].parent == Some(pp));
                    assert(c != f);
                }
            } else if k == s {
            } else if k == f || k == n {
            } else {
                let c = m[k].children[j];
                assert(m.contains_key(c) && m[c].parent == Some(k));
                assert(c != f);
            }
        }
        assert forall|k: NodeId| #[trigger] m2.contains_key(k) && m2[k].parent is Some implies d2[k] < d2[m2[k].parent->0]
            && u2[m2[k].parent->0] < u2[k] by {
            if k != f && k != n && k != s {
                let q = m[k].parent->0;
                assert(down[k] < down[q]);
                assert(q != f) by {
                    assert(m[q].children.contains(k));
                }
            }
        }
        assert forall|k: NodeId| #[trigger] m2.contains_key(k) implies m2[k].children.no_duplicates() by {
            if k == s {
                assert(f != n);
            }
        }
    } else {
        assert forall|k: NodeId| #[trigger] m2.contains_key(k) && m2[k].parent is Some implies m2.contains_key(
            m2[k].parent->0,
        ) && m2[m2[k].parent->0].children.contains(k) by {
            if k == f {
                assert(m2[s].children[0] == f);
            } else if k == n {
                assert(m2[s].children[1] == n);
            } else {
                let q = m[k].parent->0;
                assert(m.contains_key(q) && m[q].children.contains(k));
                assert(q != f) by {
                    assert(m[f].children.len() == 0);
                }
            }
        }
        assert forall|k: NodeId, j: int|
            #![trigger m2[k].children[j]]
            m2.contains_key(k) && 0 <= j < m2[k].children.len() implies m2.contains_key(m2[k].children[j])
            && m2[m2[k].children[j]].parent == Some(k) by {
            if k != s && k != f && k != n {
                let c = m[k].children[j];
                assert(m.contains_key(c) && m[c].parent == Some(k));
                assert(c != f);
            }
        }
        assert forall|k: NodeId| #[trigger] m2.contains_key(k) && m2[k].parent is Some implies d2[k] < d2[m2[k].parent->0]
            && u2[m2[k].parent->0] < u2[k] by {
            if k != f && k != n && k != s {
                let q = m[k].parent->0;
                assert(down[k] < down[q]);
                assert(q != f) by {
                    assert(m[q].children.contains(k));
                }
            }
        }
        assert forall|k: NodeId| #[trigger] m2.contains_key(k) && m2[k].parent is None implies root2 == Some(k) by {
            if k != s {
                assert(m[k].parent is None);
                assert(root == Some(k));
                assert(root == Some(f));
            }
        }
        assert forall|k: NodeId| #[trigger] m2.contains_key(k) implies m2[k].children.no_duplicates() by {
            if k == s {
                assert(f != n);
            }
        }
    }
}

/// The tree `m` with a new leaf `n` holding `w` appended to the split `p`.
pub open spec fn append_leaf(m: Map<NodeId, NodeView>, p: NodeId, n: NodeId, w: WindowId) -> Map<NodeId, NodeView> {
    m.insert(n, new_leaf(n, p, w)).insert(p, NodeView { children: m[p].children.push(n), ..m[p] })
}

pub proof fn lemma_append_leaf(
    m: Map<NodeId, NodeView>,
    root: Option<NodeId>,
    down: Map<NodeId, nat>,
    up: Map<NodeId, nat>,
    p: NodeId,
    n: NodeId,
    w: WindowId,
)
    requires
        tree_wf(m, root, down, up),
        m.contains_key(p),
        m[p].data is Split,
        !m.contains_key(n),
    ensures
        tree_wf(append_leaf(m, p, n, w), root, down.insert(n, 0), up.insert(n, up[p] + 1)),
{
    let m2 = append_leaf(m, p, n, w);
    let d2 = down.insert(n, 0);
    let u2 = up.insert(n, up[p] + 1);
    let c0 = m[p].children[0];
    assert(m.contains_key(c0) && m[c0].parent == Some(p));
    assert(down[c0] < down[p]);
    let c2 = m[p].children.push(n);
    assert(!m[p].children.contains(n)) by {
        if m[p].children.contains(n) {
            let j = choose|j: int| 0 <= j < m[p].children.len() && m[p].children[j] == n;
            assert(m.contains_key(m[p].children[j]));
        }
    }
    assert(c2.no_duplicates()) by {
        assert forall|a: int, b: int| 0 <= a < c2.len() && 0 <= b < c2.len() && a != b implies c2[a] != c2[b] by {
            if a < m[p].children.len() && b < m[p].children.len() {
                assert(m[p].children[a] != m[p].children[b]);
            }
        }
    }
    assert forall|k: NodeId| #[trigger] m2.contains_key(k) && m2[k].parent is Some implies m2.contains_key(
        m2[k].parent->0,
    ) && m2[m2[k].parent->0].children.contains(k) by {
        if k == n {
            assert(c2[c2.len() - 1] == n);
        } else {
            let q = m[k].parent->0;
            assert(m.contains_key(q) && m[q].children.contains(k));
            if q == p {
                let j = choose|j: int| 0 <= j < m[q].children.len() && m[q].children[j] == k;
                assert(c2[j] == k);
            }
        }
    }
    assert forall|k: NodeId, j: int|
        #![trigger m2[k].children[j]]
        m2.contains_key(k) && 0 <= j < m2[k].children.len() implies m2.contains_key(m2[k].children[j])
        && m2[m2[k].children[j]].parent == Some(k) by {
        if k != n {
            if k == p && j == m[p].children.len() {
            } else {
                let c = m[k].children[j];
                assert(m.contains_key(c) && m[c].parent == Some(k));
            }
        }
    }
    assert forall|k: NodeId| #[trigger] m2.contains_key(k) && m2[k].parent is Some implies d2[k] < d2[m2[k].parent->0]
        && u2[m2[k].parent->0] < u2[k] by {
        if k != n {
            let q = m[k].parent->0;
            assert(m[q].children.contains(k));
            assert(q != n);
        }
    }
}

// ---------------------------------------------------------------------------
// Edits that keep the shape
// ---------------------------------------------------------------------------

/// `m2` has the links of `m`, and each node keeps its kind (leaf or split).
pub open spec fn same_shape(m: Map<NodeId, NodeView>, m2: Map<NodeId, NodeView>) -> bool {
    &&& m2.dom() == m.dom()
    &&& forall|k: NodeId|
        #[trigger] m.contains_key(k) ==> m2[k].parent == m[k].parent && m2[k].children == m[k].children && (
        m2[k].data is Window <==> m[k].data is Window)
}

pub proof fn lemma_same_shape(
    m: Map<NodeId, NodeView>,
    m2: Map<NodeId, NodeView>,
    root: Option<NodeId>,
    down: Map<NodeId, nat>,
    up: Map<NodeId, nat>,
)
    requires
        tree_wf(m, root, down, up),
        same_shape(m, m2),
    ensures
        tree_wf(m2, root, down, up),
{
    assert forall|k: NodeId| #[trigger] m2.contains_key(k) implies m.contains_key(k) by {
        assert(m2.dom().contains(k));
    }
    assert forall|k: NodeId, j: int|
        #![trigger m2[k].children[j]]
        m2.contains_key(k) && 0 <= j < m2[k].children.len() implies m2.contains_key(m2[k].children[j])
        && m2[m2[k].children[j]].parent == Some(k) by {
        assert(m.contains_key(k));
        let c = m[k].children[j];
        assert(m.contains_key(c) && m[c].parent == Some(k));
        assert(m2.dom().contains(c));
    }
    assert forall|k: NodeId| #[trigger] m2.contains_key(k) && m2[k].parent is Some implies m2.contains_key(
        m2[k].parent->0,
    ) && m2[m2[k].parent->0].children.contains(k) by {
        assert(m.contains_key(k));
        let q = m[k].parent->0;
        assert(m.contains_key(q));
        assert(m2.dom().contains(q));
    }
    if let Some(r) = root {
        assert(m.contains_key(r));
        assert(m2.dom().contains(r));
    } else {
        assert forall|k: NodeId| !#[trigger] m2.contains_key(k) by {
            if m2.contains_key(k) {
                assert(m2.dom().contains(k));
                assert(m.contains_key(k));
            }
        }
    }
}

/// `m` with the leaf `f` (when it is one) marked unfocused.
pub open spec fn unfocus(m: Map<NodeId, NodeView>, f: Option<NodeId>) -> Map<NodeId, NodeView> {
    match f {
        Some(x) => if is_window(m, x) {
            m.insert(x, NodeView { data: NodeData::Window { window_id: window_of(m, x), is_focused: false }, ..m[x] })
        } else {
            m
        },
        None => m,
    }
}

/// `m` with the leaf `n` (when it is one) marked focused.
pub open spec fn focus_on(m: Map<NodeId, NodeView>, n: NodeId) -> Map<NodeId, NodeView> {
    if is_window(m, n) {
        m.insert(n, NodeView { data: NodeData::Window { window_id: window_of(m, n), is_focused: true }, ..m[n] })
    } else {
        m
    }
}

/// Move the focus mark from `f` to `n`.
pub open spec fn refocus(m: Map<NodeId, NodeView>, f: Option<NodeId>, n: NodeId) -> Map<NodeId, NodeView> {
    focus_on(unfocus(m, f), n)
}

/// Leaves stay leaves and keep their windows.
pub open spec fn same_windows(m: Map<NodeId, NodeView>, m2: Map<NodeId, NodeView>) -> bool {
    forall|k: NodeId|
        #![trigger is_window(m2, k)]
        #![trigger is_window(m, k)]
        is_window(m2, k) == is_window(m, k) && (is_window(m, k) ==> window_of(m2, k) == window_of(m, k))
}

pub proof fn lemma_refocus(m: Map<NodeId, NodeView>, f: Option<NodeId>, n: NodeId)
    ensures
        same_shape(m, refocus(m, f, n)),
        same_windows(m, refocus(m, f, n)),
{
    let m1 = unfocus(m, f);
    let m2 = refocus(m, f, n);
    assert(m1.dom() =~= m.dom());
    assert(m2.dom() =~= m.dom());
}

// ---------------------------------------------------------------------------
// The window sequence
// ---------------------------------------------------------------------------

/// When leaves below `k` agree, so do their window sequences.
pub proof fn lemma_windows_same(m: Map<NodeId, NodeView>, m2: Map<NodeId, NodeView>, k: nat)
    requires
        k <= u64::MAX + 1,
        forall|j: NodeId|
            j < k ==> is_window(m2, j) == is_window(m, j) && (is_window(m, j) ==> window_of(m2, j)
                == window_of(m, j)),
    ensures
        windows_below(m2, k) == windows_below(m, k),
    decreases k,
{
    if k > 0 {
        lemma_windows_same(m, m2, (k - 1) as nat);
        let id = (k - 1) as NodeId;
        assert(id < k);
    }
}

/// Ids at or above `k0` that hold no leaf add nothing to the sequence.
pub proof fn lemma_windows_gap(m: Map<NodeId, NodeView>, k0: nat, k1: nat)
    requires
        k0 <= k1 <= u64::MAX + 1,
        forall|j: NodeId| k0 <= j < k1 ==> !is_window(m, j),
    ensures
        windows_below(m, k1) == windows_below(m, k0),
    decreases k1,
{
    if k1 > k0 {
        let id = (k1 - 1) as NodeId;
        assert(k0 <= id < k1);
        lemma_windows_gap(m, k0, (k1 - 1) as nat);
    }
}

/// A new leaf at `k0`, above all old ids, appends its window.
pub proof fn lemma_windows_push(
    m: Map<NodeId, NodeView>,
    m2: Map<NodeId, NodeView>,
    k0: nat,
    k1: nat,
    w: WindowId,
)
    requires
        k0 < k1 <= u64::MAX + 1,
        forall|j: NodeId|
            j < k0 ==> is_window(m2, j) == is_window(m, j) && (is_window(m, j) ==> window_of(m2, j)
                == window_of(m, j)),
        holds(m2, k0 as NodeId, w),
        forall|j: NodeId| k0 < j < k1 ==> !is_window(m2, j),
    ensures
        windows_below(m2, k1) == windows_below(m, k0).push(w),
{
    lemma_windows_gap(m2, k0 + 1, k1);
    lemma_windows_same(m, m2, k0);
    assert(((k0 + 1) - 1) as NodeId == k0 as NodeId);
}

// ---------------------------------------------------------------------------
// Where a new window goes
// ---------------------------------------------------------------------------

pub open spec fn opposite(d: SplitDirection) -> SplitDirection {
    match d {
        SplitDirection::Horizontal => SplitDirection::Vertical,
        SplitDirection::Vertical => SplitDirection::Horizontal,
    }
}

/// The direction of the split directly above `f`, if there is one.
pub open spec fn parent_split_dir(m: Map<NodeId, NodeView>, f: NodeId) -> Option<SplitDirection> {
    if m.contains_key(f) && m[f].parent is Some && m.contains_key(m[f].parent->0)
        && m[m[f].parent->0].data is Split {
        Some(m[m[f].parent->0].data->direction)
    } else {
        None
    }
}

/// The direction a new window splits along when none was requested: across
/// the split above the focused node, or, when there is none, side by side on
/// a wide monitor and stacked on a tall one.
pub open spec fn next_direction(m: Map<NodeId, NodeView>, focused: Option<NodeId>, size: (u32, u32)) -> SplitDirection {
    let default = if size.0 > size.1 {
        SplitDirection::Vertical
    } else {
        SplitDirection::Horizontal
    };
    match focused {
        Some(f) => match parent_split_dir(m, f) {
            Some(d) => opposite(d),
            None => default,
        },
        None => default,
    }
}

/// How the master-stack arrangement takes a new window: a single window
/// gets a neighbour on the right, and a lone right window gets a second
/// window stacked under it. Deeper stacks split the focused window instead.
#[derive(Debug, Clone, Copy, PartialEq, Eq, Structural)]
pub enum MasterCase {
    /// The tree is a single window: split it side by side.
    Single,
    /// The right side is a single window: stack it with the new one.
    NewStack(NodeId),
    /// Neither shape applies.
    Inapplicable,
}

pub open spec fn master_case(m: Map<NodeId, NodeView>, root: Option<NodeId>) -> MasterCase {
    match root {
        None => MasterCase::Inapplicable,
        Some(r) => if m.len() == 1 {
            if is_window(m, r) {
                MasterCase::Single
            } else {
                MasterCase::Inapplicable
            }
        } else if m.contains_key(r) && m[r].data == (NodeData::Split { direction: SplitDirection::Vertical })
            && m[r].children.len() == 2 && is_window(m, m[r].children[0]) {
            let rr = m[r].children[1];
            if is_window(m, rr) {
                MasterCase::NewStack(rr)
            } else {
                MasterCase::Inapplicable
            }
        } else {
            MasterCase::Inapplicable
        },
    }
}

/// The tree, root and pending split after inserting window `w` as node `nid`
/// (a new split, when one is needed, gets `nid + 1`), before the focus moves
/// to the new leaf.
pub open spec fn add_shape(
    m: Map<NodeId, NodeView>,
    root: Option<NodeId>,
    focused: Option<NodeId>,
    pending: Option<SplitDirection>,
    direction: Option<SplitDirection>,
    size: (u32, u32),
    w: WindowId,
    nid: NodeId,
) -> (Map<NodeId, NodeView>, Option<NodeId>, Option<SplitDirection>) {
    let sid = (nid + 1) as NodeId;
    match root {
        None => (
            Map::empty().insert(
                nid,
                NodeView {
                    id: nid,
                    parent: None,
                    children: Seq::empty(),
                    data: NodeData::Window { window_id: w, is_focused: true },
                },
            ),
            Some(nid),
            pending,
        ),
        Some(r) => {
            let mc = if direction is None && pending is None {
                master_case(m, root)
            } else {
                MasterCase::Inapplicable
            };
            match mc {
                MasterCase::Single => (split_leaf(m, r, nid, sid, SplitDirection::Vertical, w), Some(sid), pending),
                MasterCase::NewStack(rr) => (
                    split_leaf(m, rr, nid, sid, SplitDirection::Horizontal, w),
                    root,
                    pending,
                ),
                MasterCase::Inapplicable => {
                    let dir = match direction {
                        Some(d) => d,
                        None => match pending {
                            Some(d) => d,
                            None => next_direction(m, focused, size),
                        },
                    };
                    let pending2 = if direction is Some {
                        pending
                    } else {
                        None
                    };
                    let f = focused->0;
                    if parent_split_dir(m, f) == Some(dir) {
                        (append_leaf(m, m[f].parent->0, nid, w), root, pending2)
                    } else {
                        (split_leaf(m, f, nid, sid, dir, w), split_root(m, root, f, sid), pending2)
                    }
                },
            }
        },
    }
}

/// Splitting a leaf keeps every other leaf's window and adds the new leaf.
pub proof fn lemma_split_windows(
    m: Map<NodeId, NodeView>,
    f: NodeId,
    n: NodeId,
    s: NodeId,
    dir: SplitDirection,
    w: WindowId,
)
    requires
        is_window(m, f),
        !m.contains_key(n),
        !m.contains_key(s),
        n != s,
        m[f].parent matches Some(pp) ==> m.contains_key(pp),
    ensures
        forall|j: NodeId|
            j != n && j != s ==> is_window(split_leaf(m, f, n, s, dir, w), j) == is_window(m, j) && (is_window(
                m,
                j,
            ) ==> window_of(split_leaf(m, f, n, s, dir, w), j) == window_of(m, j)),
        holds(split_leaf(m, f, n, s, dir, w), n, w),
        !is_window(split_leaf(m, f, n, s, dir, w), s),
{
}

/// Appending a leaf keeps every other leaf's window and adds the new leaf.
pub proof fn lemma_append_windows(m: Map<NodeId, NodeView>, p: NodeId, n: NodeId, w: WindowId)
    requires
        m.contains_key(p),
        m[p].data is Split,
        !m.contains_key(n),
    ensures
        forall|j: NodeId|
            j != n ==> is_window(append_leaf(m, p, n, w), j) == is_window(m, j) && (is_window(m, j)
                ==> window_of(append_leaf(m, p, n, w), j) == window_of(m, j)),
        holds(append_leaf(m, p, n, w), n, w),
{
}

/// The window sequence after inserting leaf `n` (the lowest new id, holding
/// `w`) and moving the focus.
pub proof fn lemma_add_seq(
    m0: Map<NodeId, NodeView>,
    m1: Map<NodeId, NodeView>,
    m2: Map<NodeId, NodeView>,
    n: NodeId,
    next1: NodeId,
    w: WindowId,
)
    requires
        n < next1,
        forall|j: NodeId|
            j != n && j != n + 1 ==> is_window(m1, j) == is_window(m0, j) && (is_window(m0, j) ==> window_of(
                m1,
                j,
            ) == window_of(m0, j)),
        holds(m1, n, w),
        n + 1 < next1 ==> !is_window(m1, (n + 1) as NodeId),
        next1 <= n + 2,
        same_windows(m1, m2),
    ensures
        windows_below(m2, next1 as nat) == windows_below(m0, n as nat).push(w),
{
    assert forall|j: NodeId| n < j < next1 implies !is_window(m1, j) by {
        assert(j == n + 1);
    }
    lemma_windows_push(m0, m1, n as nat, next1 as nat, w);
    lemma_windows_same(m1, m2, next1 as nat);
}

// ---------------------------------------------------------------------------
// Removing a window
// ---------------------------------------------------------------------------

/// In a well-formed tree every node but the root has a parent, so a root
/// that is a leaf is the only node.
pub proof fn lemma_root_leaf(
    m: Map<NodeId, NodeView>,
    root: Option<NodeId>,
    down: Map<NodeId, nat>,
    up: Map<NodeId, nat>,
    k: NodeId,
)
    requires
        tree_wf(m, root, down, up),
        root is Some,
        is_window(m, root->0),
        m.contains_key(k),
    ensures
        k == root->0,
    decreases up[k],
{
    if k != root->0 {
        let q = m[k].parent->0;
        assert(m[k].parent is Some);
        assert(m[q].children.contains(k));
        assert(m[q].children.len() > 0);
        lemma_root_leaf(m, root, down, up, q);
    }
}

/// The split `p`, left with its single child `o`, takes over `o`'s children
/// and `o` disappears.
pub open spec fn absorb(m: Map<NodeId, NodeView>, p: NodeId, o: NodeId) -> Map<NodeId, NodeView> {
    Map::new(
        |k: NodeId| m.contains_key(k) && k != o,
        |k: NodeId|
            if k == p {
                NodeView { children: m[o].children, ..m[p] }
            } else if m[k].parent == Some(o) {
                NodeView { parent: Some(p), ..m[k] }
            } else {
                m[k]
            },
    )
}

/// The split `p`, left with its single leaf child `o`, disappears and `o`
/// takes its place.
pub open spec fn promote(m: Map<NodeId, NodeView>, root: Option<NodeId>, p: NodeId, o: NodeId) -> (
    Map<NodeId, NodeView>,
    Option<NodeId>,
) {
    let gp = m[p].parent;
    let m2 = m.remove(p).insert(o, NodeView { parent: gp, ..m[o] });
    match gp {
        Some(g) => (m2.insert(g, NodeView { children: m[g].children.update(pos(m[g].children, p), o), ..m[g] }), root),
        None => (m2, Some(o)),
    }
}

/// The tree and root after removing the leaf `x`: a split left with one
/// child collapses, absorbing that child's children when it is a split and
/// giving its place to it when it is a leaf.
pub open spec fn remove_shape(m: Map<NodeId, NodeView>, root: Option<NodeId>, x: NodeId) -> (
    Map<NodeId, NodeView>,
    Option<NodeId>,
) {
    match m[x].parent {
        None => (m.remove(x), None),
        Some(p) => {
            let m1 = detach(m, x);
            let c = m1[p].children;
            if c.len() >= 2 {
                (m1, root)
            } else if m1[c[0]].data is Split {
                (absorb(m1, p, c[0]), root)
            } else {
                promote(m1, root, p, c[0])
            }
        },
    }
}

/// Removing a sequence element at its only position.
pub proof fn lemma_remove_value(s: Seq<NodeId>, x: NodeId, i: int)
    requires
        s.no_duplicates(),
        0 <= i < s.len(),
        s[i] == x,
    ensures
        s.remove_value(x) == s.remove(i),
        s.remove(i).no_duplicates(),
        !s.remove(i).contains(x),
        forall|y: NodeId| y != x ==> (s.remove(i).contains(y) <==> s.contains(y)),
{
    s.index_of_first_ensures(x);
    let r = s.remove(i);
    assert forall|a: int, b: int| 0 <= a < r.len() && 0 <= b < r.len() && a != b implies r[a] != r[b] by {
        let a2 = if a < i { a } else { a + 1 };
        let b2 = if b < i { b } else { b + 1 };
        assert(s[a2] != s[b2]);
    }
    assert forall|y: NodeId| y != x implies (r.contains(y) <==> s.contains(y)) by {
        if s.contains(y) {
            let j = choose|j: int| 0 <= j < s.len() && s[j] == y;
            assert(j != i);
            if j < i {
                assert(r[j] == y);
            } else {
                assert(r[j - 1] == y);
            }
        }
        if r.contains(y) {
            let j = choose|j: int| 0 <= j < r.len() && r[j] == y;
            if j < i {
                assert(s[j] == y);
            } else {
                assert(s[j + 1] == y);
            }
        }
    }
    if r.contains(x) {
        let j = choose|j: int| 0 <= j < r.len() && r[j] == x;
        if j < i {
            assert(s[j] == x);
        } else {
            assert(s[j + 1] == x);
        }
    }
}

/// The facts about `detach(m, x)` that every removal case uses.
pub proof fn lemma_detach_facts(
    m: Map<NodeId, NodeView>,
    root: Option<NodeId>,
    down: Map<NodeId, nat>,
    up: Map<NodeId, nat>,
    x: NodeId,
)
    requires
        tree_wf(m, root, down, up),
        is_window(m, x),
        m[x].parent is Some,
    ensures
        ({
            let p = m[x].parent->0;
            let m1 = detach(m, x);
            &&& m.contains_key(p) && p != x && m[p].data is Split
            &&& m1 == m.remove(x).insert(p, NodeView { children: m1[p].children, ..m[p] })
            &&& m1[p].children == m[p].children.remove(pos(m[p].children, x))
            &&& m1[p].children.len() == m[p].children.len() - 1 >= 1
            &&& m1[p].children.no_duplicates()
            &&& !m1[p].children.contains(x)
            &&& forall|y: NodeId| y != x ==> (m1[p].children.contains(y) <==> m[p].children.contains(y))
        }),
{
    let p = m[x].parent->0;
    assert(m.contains_key(p) && m[p].children.contains(x));
    let j = choose|j: int| 0 <= j < m[p].children.len() && m[p].children[j] == x;
    lemma_unique_index(m[p].children, x, j);
    lemma_remove_value(m[p].children, x, j);
    assert(m[p].data is Split) by {
        if m[p].data is Window {
            assert(m[p].children.len() == 0);
        }
    }
}

/// A split that keeps at least two children after the leaf `x` goes.
pub proof fn lemma_remove_keep(
    m: Map<NodeId, NodeView>,
    root: Option<NodeId>,
    down: Map<NodeId, nat>,
    up: Map<NodeId, nat>,
    x: NodeId,
)
    requires
        tree_wf(m, root, down, up),
        is_window(m, x),
        m[x].parent is Some,
        detach(m, x)[m[x].parent->0].children.len() >= 2,
    ensures
        tree_wf(detach(m, x), root, down, up),
{
    lemma_detach_facts(m, root, down, up, x);
    let p = m[x].parent->0;
    let m1 = detach(m, x);
    assert(root != Some(x));
    assert forall|k: NodeId| #[trigger] m1.contains_key(k) && m1[k].parent is Some implies m1.contains_key(
        m1[k].parent->0,
    ) && m1[m1[k].parent->0].children.contains(k) by {
        let q = m[k].parent->0;
        assert(m[q].children.contains(k));
        assert(q != x) by {
            assert(m[x].children.len() == 0);
        }
    }
    assert forall|k: NodeId, j: int|
        #![trigger m1[k].children[j]]
        m1.contains_key(k) && 0 <= j < m1[k].children.len() implies m1.contains_key(m1[k].children[j])
        && m1[m1[k].children[j]].parent == Some(k) by {
        let c = m1[k].children[j];
        if k == p {
            assert(m1[p].children.contains(c));
            assert(m[p].children.contains(c));
            let t = choose|t: int| 0 <= t < m[p].children.len() && m[p].children[t] == c;
            assert(m.contains_key(m[p].children[t]));
            assert(c != x);
        } else {
            assert(m.contains_key(c) && m[c].parent == Some(k));
            assert(c != x);
        }
    }
}

/// A split left with a single split child takes over its children.
#[verifier::rlimit(100)]
pub proof fn lemma_remove_absorb(
    m: Map<NodeId, NodeView>,
    root: Option<NodeId>,
    down: Map<NodeId, nat>,
    up: Map<NodeId, nat>,
    x: NodeId,
)
    requires
        tree_wf(m, root, down, up),
        is_window(m, x),
        m[x].parent is Some,
        detach(m, x)[m[x].parent->0].children.len() == 1,
        detach(m, x)[detach(m, x)[m[x].parent->0].children[0]].data is Split,
    ensures
        tree_wf(
            absorb(detach(m, x), m[x].parent->0, detach(m, x)[m[x].parent->0].children[0]),
            root,
            down,
            up,
        ),
{
    lemma_detach_facts(m, root, down, up, x);
    let p = m[x].parent->0;
    let m1 = detach(m, x);
    let o = m1[p].children[0];
    let m2 = absorb(m1, p, o);
    assert(m1[p].children.contains(o));
    assert(m[p].children.contains(o));
    let t = choose|t: int| 0 <= t < m[p].children.len() && m[p].children[t] == o;
    assert(m.contains_key(m[p].children[t]) && m[o].parent == Some(p));
    assert(o != x && o != p);
    assert(m1[o] == m[o]);
    let g = m[o].children;
    assert(m2.dom() =~= m1.dom().remove(o));
    assert(root != Some(x) && root != Some(o));
    // children of p in m are exactly x and o
    assert forall|y: NodeId| m[p].children.contains(y) implies y == x || y == o by {
        if y != x {
            assert(m1[p].children.contains(y));
            let u = choose|u: int| 0 <= u < m1[p].children.len() && m1[p].children[u] == y;
            assert(u == 0);
        }
    }
    assert forall|k: NodeId| #[trigger] m2.contains_key(k) && m2[k].parent is None implies root == Some(k) by {
        assert(m.contains_key(k));
        if m[k].parent == Some(o) {
        } else {
            assert(m[k].parent is None);
        }
    }
    assert forall|k: NodeId| #[trigger] m2.contains_key(k) && m2[k].parent is Some implies m2.contains_key(
        m2[k].parent->0,
    ) && m2[m2[k].parent->0].children.contains(k) by {
        assert(m.contains_key(k) && k != x && k != o);
        if m[k].parent == Some(o) {
            assert(m[o].children.contains(k));
            assert(m2[p].children == g);
        } else {
            let q = m[k].parent->0;
            assert(m[q].children.contains(k));
            assert(q != x) by {
                assert(m[x].children.len() == 0);
            }
            if q == p {
                assert(k == o);
            } else {
                assert(q != o);
                assert(m2[q].children == m[q].children);
            }
        }
    }
    assert forall|k: NodeId, j: int|
        #![trigger m2[k].children[j]]
        m2.contains_key(k) && 0 <= j < m2[k].children.len() implies m2.contains_key(m2[k].children[j])
        && m2[m2[k].children[j]].parent == Some(k) by {
        assert(m.contains_key(k) && k != x && k != o);
        if k == p {
            let c = g[j];
            assert(m.contains_key(c) && m[c].parent == Some(o));
            assert(c != o && c != x);
        } else {
            let c = m[k].children[j];
            assert(m2[k].children == m[k].children);
            assert(m.contains_key(c) && m[c].parent == Some(k));
            assert(c != x) by {
                assert(m[x].parent == Some(p));
            }
            assert(c != o);
            assert(m[c].parent != Some(o));
        }
    }
    assert forall|k: NodeId| #[trigger] m2.contains_key(k) implies m2[k].children.no_duplicates() by {
        assert(m.contains_key(k));
    }
    assert forall|k: NodeId|
        #[trigger] m2.contains_key(k) implies (m2[k].data is Window ==> m2[k].children.len() == 0) && (
        m2[k].data is Split ==> m2[k].children.len() >= 2) by {
        assert(m.contains_key(k));
    }
    assert forall|k: NodeId| #[trigger] m2.contains_key(k) && m2[k].parent is Some implies down[k]
        < down[m2[k].parent->0] && up[m2[k].parent->0] < up[k] by {
        assert(m.contains_key(k));
        if m[k].parent == Some(o) {
            assert(down[o] < down[p] && up[p] < up[o]);
        }
    }
}

/// A split left with a single leaf child is replaced by that leaf.
#[verifier::rlimit(60)]
pub proof fn lemma_remove_promote(
    m: Map<NodeId, NodeView>,
    root: Option<NodeId>,
    down: Map<NodeId, nat>,
    up: Map<NodeId, nat>,
    x: NodeId,
)
    requires
        tree_wf(m, root, down, up),
        is_window(m, x),
        m[x].parent is Some,
        detach(m, x)[m[x].parent->0].children.len() == 1,
        detach(m, x)[detach(m, x)[m[x].parent->0].children[0]].data is Window,
    ensures
        ({
            let r = promote(detach(m, x), root, m[x].parent->0, detach(m, x)[m[x].parent->0].children[0]);
            tree_wf(r.0, r.1, down, up)
        }),
{
    lemma_detach_facts(m, root, down, up, x);
    let p = m[x].parent->0;
    let m1 = detach(m, x);
    let o = m1[p].children[0];
    let r = promote(m1, root, p, o);
    let m2 = r.0;
    let root2 = r.1;
    assert(m1[p].children.contains(o));
    assert(m[p].children.contains(o));
    let t = choose|t: int| 0 <= t < m[p].children.len() && m[p].children[t] == o;
    assert(m.contains_key(m[p].children[t]) && m[o].parent == Some(p));
    assert(o != x && o != p);
    assert(m1[o] == m[o]);
    assert(m[o].children.len() == 0);
    let gp = m[p].parent;
    assert forall|y: NodeId| m[p].children.contains(y) implies y == x || y == o by {
        if y != x {
            assert(m1[p].children.contains(y));
            let u = choose|u: int| 0 <= u < m1[p].children.len() && m1[p].children[u] == y;
            assert(u == 0);
        }
    }
    if let Some(g) = gp {
        assert(m.contains_key(g) && m[g].children.contains(p));
        let tp = choose|tp: int| 0 <= tp < m[g].children.len() && m[g].children[tp] == p;
        lemma_unique_index(m[g].children, p, tp);
        assert(g != x && g != o && g != p);
        assert(m1[g] == m[g]);
        let cg = m[g].children.update(tp, o);
        assert(!m[g].children.contains(o)) by {
            if m[g].children.contains(o) {
                let u = choose|u: int| 0 <= u < m[g].children.len() && m[g].children[u] == o;
                assert(m.contains_key(m[g].children[u]));
            }
        }
        assert(cg.no_duplicates()) by {
            assert forall|a: int, b: int| 0 <= a < cg.len() && 0 <= b < cg.len() && a != b implies cg[a]
                != cg[b] by {
                if a != tp && b != tp {
                    assert(m[g].children[a] != m[g].children[b]);
                }
            }
        }
        assert(m2.dom() =~= m.dom().remove(x).remove(p));
        assert forall|k: NodeId| #[trigger] m2.contains_key(k) && m2[k].parent is None implies root2 == Some(k) by {
            assert(m.contains_key(k) && k != o);
            assert(m[k].parent is None);
        }
        assert(root2 == root);
        assert(root != Some(p) && root != Some(x) && root != Some(o));
        assert forall|k: NodeId| #[trigger] m2.contains_key(k) && m2[k].parent is Some implies m2.contains_key(
            m2[k].parent->0,
        ) && m2[m2[k].parent->0].children.contains(k) by {
            if k == o {
                assert(cg[tp] == o);
            } else {
                let q = m[k].parent->0;
                assert(m[q].children.contains(k));
                assert(q != x) by {
                    assert(m[x].children.len() == 0);
                }
                assert(q != p);
                assert(q != o);
                if q == g {
                    let u = choose|u: int| 0 <= u < m[g].children.len() && m[g].children[u] == k;
                    assert(u != tp);
                    assert(cg[u] == k);
                }
            }
        }
        assert forall|k: NodeId, j: int|
            #![trigger m2[k].children[j]]
            m2.contains_key(k) && 0 <= j < m2[k].children.len() implies m2.contains_key(m2[k].children[j])
            && m2[m2[k].children[j]].parent == Some(k) by {
            if k == g {
                if j != tp {
                    let c = m[g].children[j];
                    assert(m.contains_key(c) && m[c].parent == Some(g));
                    assert(c != p && c != x && c != o);
                }
            } else if k != o {
                let c = m[k].children[j];
                assert(m.contains_key(c) && m[c].parent == Some(k));
                assert(c != x && c != p && c != o);
            }
        }
        assert forall|k: NodeId| #[trigger] m2.contains_key(k) && m2[k].parent is Some implies down[k]
            < down[m2[k].parent->0] && up[m2[k].parent->0] < up[k] by {
            if k == o {
                assert(down[p] < down[g] && up[g] < up[p]);
            } else {
                let q = m[k].parent->0;
                assert(m[q].children.contains(k));
            }
        }
    } else {
        assert(m2.dom() =~= m.dom().remove(x).remove(p));
        assert(root == Some(p));
        assert forall|k: NodeId| #[trigger] m2.contains_key(k) && m2[k].parent is None implies root2 == Some(k) by {
            if k != o {
                assert(m[k].parent is None);
            }
        }
        assert forall|k: NodeId| #[trigger] m2.contains_key(k) && m2[k].parent is Some implies m2.contains_key(
            m2[k].parent->0,
        ) && m2[m2[k].parent->0].children.contains(k) by {
            let q = m[k].parent->0;
            assert(m[q].children.contains(k));
            assert(q != x) by {
                assert(m[x].children.len() == 0);
            }
            assert(q != o);
            if q == p {
                assert(k == o || k == x);
            }
        }
        assert forall|k: NodeId, j: int|
            #![trigger m2[k].children[j]]
            m2.contains_key(k) && 0 <= j < m2[k].children.len() implies m2.contains_key(m2[k].children[j])
            && m2[m2[k].children[j]].parent == Some(k) by {
            if k != o {
                let c = m[k].children[j];
                assert(m.contains_key(c) && m[c].parent == Some(k));
                assert(c != x && c != p && c != o);
            }
        }
        assert forall|k: NodeId| #[trigger] m2.contains_key(k) && m2[k].parent is Some implies down[k]
            < down[m2[k].parent->0] && up[m2[k].parent->0] < up[k] by {
            let q = m[k].parent->0;
            assert(m[q].children.contains(k));
        }
    }
}

/// Removing the leaf `x` removes only `x` and splits, and changes no node's
/// payload.
pub proof fn lemma_remove_windows(
    m: Map<NodeId, NodeView>,
    root: Option<NodeId>,
    down: Map<NodeId, nat>,
    up: Map<NodeId, nat>,
    x: NodeId,
)
    requires
        tree_wf(m, root, down, up),
        is_window(m, x),
    ensures
        forall|k: NodeId|
            #[trigger] is_window(remove_shape(m, root, x).0, k) == (is_window(m, k) && k != x),
        forall|k: NodeId|
            #[trigger] remove_shape(m, root, x).0.contains_key(k) ==> m.contains_key(k) && remove_shape(
                m,
                root,
                x,
            ).0[k].data == m[k].data,
{
    let m2 = remove_shape(m, root, x).0;
    if m[x].parent is Some {
        lemma_detach_facts(m, root, down, up, x);
        let p = m[x].parent->0;
        let m1 = detach(m, x);
        let c = m1[p].children;
        if c.len() < 2 {
            let o = c[0];
            assert(c.contains(o));
            assert(m[p].children.contains(o));
            let t = choose|t: int| 0 <= t < m[p].children.len() && m[p].children[t] == o;
            assert(m.contains_key(m[p].children[t]));
            assert(o != x && o != p);
            if m1[o].data is Window {
                if let Some(g) = m[p].parent {
                    assert(m.contains_key(g) && m[g].children.contains(p));
                    assert(g != x) by {
                        assert(m[x].children.len() == 0);
                    }
                }
            }
        }
    }
}

/// Removing the leaf `x` removes its window from the sequence.
pub proof fn lemma_windows_remove(m: Map<NodeId, NodeView>, m2: Map<NodeId, NodeView>, x: NodeId, k: nat)
    requires
        k <= u64::MAX + 1,
        is_window(m, x),
        forall|j: NodeId| #[trigger] is_window(m2, j) == (is_window(m, j) && j != x),
        forall|j: NodeId| is_window(m2, j) ==> window_of(m2, j) == window_of(m, j),
    ensures
        k <= x ==> windows_below(m2, k) == windows_below(m, k),
        k > x ==> windows_below(m2, k) == windows_below(m, k).remove(windows_below(m, x as nat).len() as int),
    decreases k,
{
    if k > 0 {
        let id = (k - 1) as NodeId;
        lemma_windows_remove(m, m2, x, (k - 1) as nat);
        if k <= x {
            assert(id != x);
        } else if k == x + 1 {
            assert(id == x);
            assert(windows_below(m, k) == windows_below(m, x as nat).push(window_of(m, x)));
            assert(windows_below(m, k).remove(windows_below(m, x as nat).len() as int) =~= windows_below(
                m,
                x as nat,
            ));
        } else {
            let prev = windows_below(m, (k - 1) as nat);
            let i = windows_below(m, x as nat).len() as int;
            lemma_windows_len_mono(m, x as nat, (k - 1) as nat);
            if is_window(m, id) {
                assert(prev.push(window_of(m, id)).remove(i) =~= prev.remove(i).push(window_of(m, id)));
            }
        }
    }
}

/// The window sequence only grows with `k`; the leaf at `x` makes it grow.
/// A leaf's window sits in the id-ordered window sequence at the number of
/// leaves before it.
pub proof fn lemma_windows_index(m: Map<NodeId, NodeView>, x: nat, k: nat)
    requires
        x < k <= u64::MAX + 1,
        is_window(m, x as NodeId),
    ensures
        windows_below(m, x).len() < windows_below(m, k).len(),
        windows_below(m, k)[windows_below(m, x).len() as int] == window_of(m, x as NodeId),
    decreases k,
{
    if k > x + 1 {
        lemma_windows_index(m, x, (k - 1) as nat);
    } else {
        assert(((k - 1) as NodeId) == x as NodeId);
    }
}

pub proof fn lemma_windows_len_mono(m: Map<NodeId, NodeView>, x: nat, k: nat)
    requires
        x < k <= u64::MAX + 1,
        is_window(m, x as NodeId),
    ensures
        windows_below(m, x).len() < windows_below(m, k).len(),
    decreases k,
{
    if k > x + 1 {
        lemma_windows_len_mono(m, x, (k - 1) as nat);
    } else {
        assert(((k - 1) as NodeId) == x as NodeId);
    }
}

// ---------------------------------------------------------------------------
// Descending to the first or last leaf
// ---------------------------------------------------------------------------

/// The node reached from `n` by following first children up to `k` times.
pub open spec fn descend_first(m: Map<NodeId, NodeView>, n: NodeId, k: nat) -> NodeId
    decreases k,
{
    if k == 0 {
        n
    } else if m.contains_key(n) && m[n].data is Split && m[n].children.len() > 0 {
        descend_first(m, m[n].children[0], (k - 1) as nat)
    } else {
        n
    }
}

/// The node reached from `n` by following last children up to `k` times.
pub open spec fn descend_last(m: Map<NodeId, NodeView>, n: NodeId, k: nat) -> NodeId
    decreases k,
{
    if k == 0 {
        n
    } else if m.contains_key(n) && m[n].data is Split && m[n].children.len() > 0 {
        descend_last(m, m[n].children.last(), (k - 1) as nat)
    } else {
        n
    }
}

/// `leaf` is the leaf reached from `n` by always taking the first child.
pub open spec fn is_first_leaf(m: Map<NodeId, NodeView>, n: NodeId, leaf: NodeId) -> bool {
    is_window(m, leaf) && exists|k: nat| descend_first(m, n, k) == leaf
}

/// `leaf` is the leaf reached from `n` by always taking the last child.
pub open spec fn is_last_leaf(m: Map<NodeId, NodeView>, n: NodeId, leaf: NodeId) -> bool {
    is_window(m, leaf) && exists|k: nat| descend_last(m, n, k) == leaf
}

// ---------------------------------------------------------------------------
// Navigation
// ---------------------------------------------------------------------------

/// Climb from `cur` (at most `k` steps) to the nearest ancestor split along
/// `axis`; yields that split and the child of it that was passed through.
#[verifier::opaque]
pub open spec fn climb(m: Map<NodeId, NodeView>, cur: NodeId, axis: SplitDirection, k: nat) -> Option<(NodeId, NodeId)>
    decreases k,
{
    if k == 0 || !m.contains_key(cur) {
        None
    } else {
        match m[cur].parent {
            None => None,
            Some(p) => if m.contains_key(p) && m[p].data == (NodeData::Split { direction: axis }) {
                Some((p, cur))
            } else {
                climb(m, p, axis, (k - 1) as nat)
            },
        }
    }
}

/// The position after (`forward`) or before `i` among `n` positions, wrapping.
pub open spec fn step_pos(i: int, n: int, forward: bool) -> int {
    if forward {
        (i + 1) % n
    } else if i == 0 {
        n - 1
    } else {
        i - 1
    }
}

/// `t` is the leaf that navigation from `from` along `d` reaches: the first
/// (moving forward) or last leaf of the next or previous sibling branch under
/// the nearest ancestor split along `d`'s axis, wrapping around.
pub open spec fn is_neighbor(m: Map<NodeId, NodeView>, from: NodeId, d: Direction, t: NodeId) -> bool {
    exists|k: nat|
        #![trigger climb(m, from, direction_axis(d), k)]
        climb(m, from, direction_axis(d), k) matches Some((s, b)) && {
            let cs = m[s].children;
            let target = cs[step_pos(pos(cs, b), cs.len() as int, direction_is_forward(d))];
            if direction_is_forward(d) {
                is_first_leaf(m, target, t)
            } else {
                is_last_leaf(m, target, t)
            }
        }
}

/// No ancestor split runs along `d`'s axis.
pub open spec fn has_no_neighbor(m: Map<NodeId, NodeView>, from: NodeId, d: Direction) -> bool {
    forall|k: nat| #[trigger] climb(m, from, direction_axis(d), k) is None
}

pub proof fn lemma_climb_zero(m: Map<NodeId, NodeView>, cur: NodeId, axis: SplitDirection)
    ensures
        climb(m, cur, axis, 0) is None,
{
    reveal(climb);
}

/// Passing a node that is not a split along `axis` costs one step.
pub proof fn lemma_climb_pass(m: Map<NodeId, NodeView>, cur: NodeId, p: NodeId, axis: SplitDirection, k: nat)
    requires
        m.contains_key(cur),
        m[cur].parent == Some(p),
        !(m.contains_key(p) && m[p].data == (NodeData::Split { direction: axis })),
    ensures
        climb(m, cur, axis, k + 1) == climb(m, p, axis, k),
{
    reveal(climb);
}

/// A parent that is a split along `axis` is found in one step.
pub proof fn lemma_climb_found(m: Map<NodeId, NodeView>, cur: NodeId, p: NodeId, axis: SplitDirection, k: nat)
    requires
        m.contains_key(cur),
        m[cur].parent == Some(p),
        m.contains_key(p) && m[p].data == (NodeData::Split { direction: axis }),
    ensures
        climb(m, cur, axis, k + 1) == Some((p, cur)),
{
    reveal(climb);
}

/// The root has no ancestor to find.
pub proof fn lemma_climb_root(m: Map<NodeId, NodeView>, cur: NodeId, axis: SplitDirection, k: nat)
    requires
        m.contains_key(cur),
        m[cur].parent is None,
    ensures
        climb(m, cur, axis, k) is None,
{
    reveal(climb);
}

/// What a successful climb yields: a split along `axis` and one of its children.
pub proof fn lemma_climb_some(m: Map<NodeId, NodeView>, cur: NodeId, axis: SplitDirection, k: nat)
    ensures
        climb(m, cur, axis, k) matches Some((s, b)) ==> m.contains_key(s) && m.contains_key(b) && m[b].parent
            == Some(s) && m[s].data == (NodeData::Split { direction: axis }),
    decreases k,
{
    reveal(climb);
    if k > 0 && m.contains_key(cur) {
        if let Some(p) = m[cur].parent {
            lemma_climb_some(m, p, axis, (k - 1) as nat);
        }
    }
}

// ---------------------------------------------------------------------------
// Leaves in order
// ---------------------------------------------------------------------------

/// The leaves below `n` from left to right, descending at most `k` levels.
pub open spec fn dfs_leaves(m: Map<NodeId, NodeView>, n: NodeId, k: nat) -> Seq<NodeId>
    decreases k, 0nat,
{
    if k == 0 || !m.contains_key(n) {
        Seq::empty()
    } else if m[n].data is Window {
        seq![n]
    } else {
        dfs_list(m, m[n].children, (k - 1) as nat)
    }
}

/// The leaves below each of `cs` in turn, descending at most `k` levels.
pub open spec fn dfs_list(m: Map<NodeId, NodeView>, cs: Seq<NodeId>, k: nat) -> Seq<NodeId>
    decreases k, cs.len(),
{
    if cs.len() == 0 {
        Seq::empty()
    } else {
        dfs_leaves(m, cs[0], k) + dfs_list(m, cs.drop_first(), k)
    }
}

/// Appending a node to the list appends its leaves.
pub proof fn lemma_dfs_list_push(m: Map<NodeId, NodeView>, cs: Seq<NodeId>, x: NodeId, k: nat)
    ensures
        dfs_list(m, cs.push(x), k) == dfs_list(m, cs, k) + dfs_leaves(m, x, k),
    decreases cs.len(),
{
    if cs.len() == 0 {
        let s1 = cs.push(x);
        assert(s1.drop_first() =~= Seq::<NodeId>::empty());
        assert(s1[0] == x);
        assert(dfs_list(m, s1.drop_first(), k) =~= Seq::<NodeId>::empty());
        assert(dfs_list(m, cs, k) =~= Seq::<NodeId>::empty());
        assert(dfs_list(m, s1, k) =~= dfs_leaves(m, x, k));
    } else {
        assert(cs.push(x).drop_first() =~= cs.drop_first().push(x));
        lemma_dfs_list_push(m, cs.drop_first(), x, k);
        assert(dfs_list(m, cs.push(x), k) =~= dfs_list(m, cs, k) + dfs_leaves(m, x, k));
    }
}

/// Any fuel above the rank of `n` gives the same leaves.
pub proof fn lemma_dfs_stable(
    m: Map<NodeId, NodeView>,
    root: Option<NodeId>,
    down: Map<NodeId, nat>,
    up: Map<NodeId, nat>,
    n: NodeId,
    k1: nat,
    k2: nat,
)
    requires
        tree_wf(m, root, down, up),
        m.contains_key(n),
        k1 > down[n],
        k2 > down[n],
    ensures
        dfs_leaves(m, n, k1) == dfs_leaves(m, n, k2),
    decreases down[n], 1nat,
{
    if m[n].data is Split {
        lemma_dfs_list_stable(m, root, down, up, n, m[n].children, (k1 - 1) as nat, (k2 - 1) as nat);
    }
}

pub proof fn lemma_dfs_list_stable(
    m: Map<NodeId, NodeView>,
    root: Option<NodeId>,
    down: Map<NodeId, nat>,
    up: Map<NodeId, nat>,
    p: NodeId,
    cs: Seq<NodeId>,
    k1: nat,
    k2: nat,
)
    requires
        tree_wf(m, root, down, up),
        m.contains_key(p),
        forall|j: int| 0 <= j < cs.len() ==> m.contains_key(#[trigger] cs[j]) && m[cs[j]].parent == Some(p),
        k1 >= down[p],
        k2 >= down[p],
    ensures
        dfs_list(m, cs, k1) == dfs_list(m, cs, k2),
    decreases down[p], 0nat, cs.len(),
{
    if cs.len() > 0 {
        let c = cs[0];
        assert(m.contains_key(c) && m[c].parent == Some(p));
        assert(down[c] < down[p]);
        lemma_dfs_stable(m, root, down, up, c, k1, k2);
        assert forall|j: int| 0 <= j < cs.drop_first().len() implies m.contains_key(#[trigger] cs.drop_first()[j])
            && m[cs.drop_first()[j]].parent == Some(p) by {
            assert(cs.drop_first()[j] == cs[j + 1]);
        }
        lemma_dfs_list_stable(m, root, down, up, p, cs.drop_first(), k1, k2);
    }
}

/// Everything the traversal yields is a leaf.
pub proof fn lemma_dfs_windows(m: Map<NodeId, NodeView>, n: NodeId, k: nat)
    ensures
        forall|j: int| 0 <= j < dfs_leaves(m, n, k).len() ==> is_window(m, #[trigger] dfs_leaves(m, n, k)[j]),
    decreases k, 0nat,
{
    if k > 0 && m.contains_key(n) && m[n].data is Split {
        lemma_dfs_list_windows(m, m[n].children, (k - 1) as nat);
        assert(dfs_leaves(m, n, k) == dfs_list(m, m[n].children, (k - 1) as nat));
    } else if k > 0 && m.contains_key(n) {
        assert(dfs_leaves(m, n, k) == seq![n]);
        assert forall|j: int| 0 <= j < dfs_leaves(m, n, k).len() implies is_window(m, #[trigger] dfs_leaves(m, n, k)[j]) by {
            assert(j == 0);
        }
    }
}

pub proof fn lemma_dfs_list_windows(m: Map<NodeId, NodeView>, cs: Seq<NodeId>, k: nat)
    ensures
        forall|j: int| 0 <= j < dfs_list(m, cs, k).len() ==> is_window(m, #[trigger] dfs_list(m, cs, k)[j]),
    decreases k, cs.len(),
{
    if cs.len() > 0 {
        lemma_dfs_windows(m, cs[0], k);
        lemma_dfs_list_windows(m, cs.drop_first(), k);
        let a = dfs_leaves(m, cs[0], k);
        let b = dfs_list(m, cs.drop_first(), k);
        assert forall|j: int| 0 <= j < (a + b).len() implies is_window(m, #[trigger] (a + b)[j]) by {
            if j < a.len() {
                assert((a + b)[j] == a[j]);
            } else {
                assert((a + b)[j] == b[j - a.len()]);
            }
        }
    }
}

/// The first index of `x` in `s` (meaningful when `s` contains `x`).
pub open spec fn first_index(s: Seq<NodeId>, x: NodeId) -> int {
    choose|i: int| 0 <= i < s.len() && s[i] == x && forall|j: int| 0 <= j < i ==> s[j] != x
}

pub proof fn lemma_first_index(s: Seq<NodeId>, x: NodeId, i: int)
    requires
        0 <= i < s.len(),
        s[i] == x,
        forall|j: int| 0 <= j < i ==> s[j] != x,
    ensures
        first_index(s, x) == i,
{
    let c = first_index(s, x);
    assert(0 <= c < s.len() && s[c] == x && forall|j: int| 0 <= j < c ==> s[j] != x);
}

// ---------------------------------------------------------------------------
// Swapping
// ---------------------------------------------------------------------------

/// `x` is the lowest-numbered leaf holding `w`.
pub open spec fn is_first_holder(m: Map<NodeId, NodeView>, w: WindowId, x: NodeId) -> bool {
    holds(m, x, w) && forall|j: NodeId| j < x ==> !holds(m, j, w)
}

/// The windows held by some leaf.
pub open spec fn window_set(m: Map<NodeId, NodeView>) -> Set<WindowId> {
    Set::new(|w: WindowId| exists|k: NodeId| holds(m, k, w))
}

/// The payloads of nodes `a` and `b` exchanged.
pub open spec fn swap_data(m: Map<NodeId, NodeView>, a: NodeId, b: NodeId) -> Map<NodeId, NodeView> {
    m.insert(a, NodeView { data: m[b].data, ..m[a] }).insert(b, NodeView { data: m[a].data, ..m[b] })
}

/// The windows of leaves `a` and `b` exchanged; focus marks stay in place.
pub open spec fn swap_ids(m: Map<NodeId, NodeView>, a: NodeId, b: NodeId) -> Map<NodeId, NodeView> {
    m.insert(
        a,
        NodeView { data: NodeData::Window { window_id: window_of(m, b), is_focused: m[a].data->is_focused }, ..m[a] },
    ).insert(
        b,
        NodeView { data: NodeData::Window { window_id: window_of(m, a), is_focused: m[b].data->is_focused }, ..m[b] },
    )
}

/// Two maps whose leaves hold the same windows up to exchanging `a` and `b`
/// hold the same set of windows.
proof fn lemma_window_set_exchange(m: Map<NodeId, NodeView>, m2: Map<NodeId, NodeView>, a: NodeId, b: NodeId)
    requires
        is_window(m, a),
        is_window(m, b),
        is_window(m2, a),
        is_window(m2, b),
        window_of(m2, a) == window_of(m, b),
        window_of(m2, b) == window_of(m, a),
        m2.dom() == m.dom(),
        forall|k: NodeId| k != a && k != b && #[trigger] m.contains_key(k) ==> m2[k] == m[k],
    ensures
        window_set(m2) == window_set(m),
{
    assert forall|w: WindowId| window_set(m2).contains(w) implies window_set(m).contains(w) by {
        let k = choose|k: NodeId| holds(m2, k, w);
        if k == b {
            assert(holds(m, a, w));
        } else if k == a {
            assert(holds(m, b, w));
        } else {
            assert(holds(m, k, w));
        }
    }
    assert forall|w: WindowId| window_set(m).contains(w) implies window_set(m2).contains(w) by {
        let k = choose|k: NodeId| holds(m, k, w);
        if k == b {
            assert(holds(m2, a, w));
        } else if k == a {
            assert(holds(m2, b, w));
        } else {
            assert(holds(m2, k, w));
        }
    }
    assert(window_set(m2) =~= window_set(m));
}

pub proof fn lemma_swap_data(m: Map<NodeId, NodeView>, a: NodeId, b: NodeId)
    requires
        is_window(m, a),
        is_window(m, b),
    ensures
        same_shape(m, swap_data(m, a, b)),
        window_set(swap_data(m, a, b)) == window_set(m),
{
    let m2 = swap_data(m, a, b);
    assert(m2.dom() =~= m.dom());
    lemma_window_set_exchange(m, m2, a, b);
}

pub proof fn lemma_swap_ids(m: Map<NodeId, NodeView>, a: NodeId, b: NodeId)
    requires
        is_window(m, a),
        is_window(m, b),
    ensures
        same_shape(m, swap_ids(m, a, b)),
        window_set(swap_ids(m, a, b)) == window_set(m),
{
    let m2 = swap_ids(m, a, b);
    assert(m2.dom() =~= m.dom());
    lemma_window_set_exchange(m, m2, a, b);
}

} // verus!

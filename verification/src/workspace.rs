//! A workspace: one virtual desktop on one monitor, holding a tiling tree of
//! windows.
//!
//! The tree lives in an [`Arena`]. Its shape is kept well formed at all
//! times (see [`tree_wf`]): one root, parent and child links that agree, no
//! cycles, window leaves without children and splits with at least two
//! children. Exactly the workspaces with a root have a focused node, and that
//! node is a window leaf.
use vstd::prelude::*;

use crate::layout::{rect_small, subtract_strip, subtract_strip_spec, Rect};
use crate::shape::{
    add_shape, append_leaf, focus_wf, holds, is_window, lemma_append_leaf, lemma_refocus, lemma_same_shape,
    lemma_split_leaf, lemma_unique_index, descend_first, descend_last, is_first_leaf, is_last_leaf,
    remove_shape, is_first_holder, window_set, swap_data, swap_ids, lemma_swap_data, lemma_swap_ids, dfs_leaves, dfs_list, first_index, lemma_first_index, climb, is_neighbor, has_no_neighbor, step_pos, pos, absorb, promote, lemma_root_leaf, lemma_detach_facts, lemma_remove_keep,
    lemma_remove_absorb, lemma_remove_promote, lemma_remove_windows, lemma_windows_remove, lemma_windows_push, lemma_split_windows, lemma_append_windows, lemma_add_seq, master_case, next_direction, parent_split_dir,
    position, refocus, same_shape, same_windows, split_down, split_leaf, split_root, split_up, tree_wf,
    window_of, windows_below, MasterCase, lemma_windows_index,
};
use crate::tree::{detach, direction_axis, direction_is_forward, Direction, Arena, NodeData, NodeId, NodeView, SplitDirection, WindowId};

verus! {

broadcast use vstd::std_specs::hash::group_hash_axioms;

// ---------------------------------------------------------------------------
// Workspace
// ---------------------------------------------------------------------------

/// A virtual desktop bound to a monitor, tiling its windows in a tree.
pub struct Workspace {
    name: String,
    monitor_id: u32,
    /// When set, only the focused window is shown, filling the monitor.
    monocle: bool,
    focused_node: Option<NodeId>,
    pending_split: Option<SplitDirection>,
    root: Option<NodeId>,
    arena: Arena,
    monitor_origin: (i32, i32),
    monitor_size: (u32, u32),
    /// Global-coordinate region of the monitor that windows must avoid
    /// (e.g. a status bar strip).
    reserved: Option<Rect>,
    down: Ghost<Map<NodeId, nat>>,
    up: Ghost<Map<NodeId, nat>>,
}

impl Workspace {
    pub closed spec fn spec_name(&self) -> Seq<char> {
        self.name@
    }

    pub closed spec fn spec_monitor_id(&self) -> u32 {
        self.monitor_id
    }

    pub closed spec fn spec_monocle(&self) -> bool {
        self.monocle
    }

    /// The nodes of the tree, by id.
    pub closed spec fn nodes(&self) -> Map<NodeId, NodeView> {
        self.arena.spec_nodes()
    }

    pub closed spec fn spec_root(&self) -> Option<NodeId> {
        self.root
    }

    pub closed spec fn spec_focused(&self) -> Option<NodeId> {
        self.focused_node
    }

    /// The split direction requested for the next window.
    pub closed spec fn spec_pending(&self) -> Option<SplitDirection> {
        self.pending_split
    }

    /// The id the next new node receives.
    pub closed spec fn spec_next_id(&self) -> NodeId {
        self.arena.spec_next_id()
    }

    pub closed spec fn spec_monitor_origin(&self) -> (i32, i32) {
        self.monitor_origin
    }

    pub closed spec fn spec_monitor_size(&self) -> (u32, u32) {
        self.monitor_size
    }

    pub closed spec fn spec_reserved(&self) -> Option<Rect> {
        self.reserved
    }

    /// The tree and the focus are well formed.
    pub closed spec fn wf(&self) -> bool {
        &&& self.arena.ids_wf()
        &&& tree_wf(self.arena.spec_nodes(), self.root, self.down@, self.up@)
        &&& focus_wf(self.arena.spec_nodes(), self.root, self.focused_node)
    }

    /// Room for the two ids a window insertion may allocate.
    pub open spec fn can_allocate(&self) -> bool {
        self.spec_next_id() + 2 < u64::MAX
    }

    /// The windows of all leaves, ordered by node id.
    pub open spec fn window_seq(&self) -> Seq<WindowId> {
        windows_below(self.nodes(), self.spec_next_id() as nat)
    }

    /// The geometry and the pending split are the same in `a` and `b`.
    pub open spec fn same_settings(a: &Workspace, b: &Workspace) -> bool {
        &&& a.spec_name() == b.spec_name()
        &&& a.spec_monitor_id() == b.spec_monitor_id()
        &&& a.spec_monocle() == b.spec_monocle()
        &&& a.spec_monitor_origin() == b.spec_monitor_origin()
        &&& a.spec_monitor_size() == b.spec_monitor_size()
        &&& a.spec_reserved() == b.spec_reserved()
    }

    /// An empty workspace on monitor `monitor_id`.
    pub fn new(name: String, monitor_id: u32, origin: (i32, i32), size: (u32, u32)) -> (r: Workspace)
        ensures
            r.wf(),
            r.spec_name() == name@,
            r.spec_monitor_id() == monitor_id,
            !r.spec_monocle(),
            r.nodes() == Map::<NodeId, NodeView>::empty(),
            r.spec_root() is None,
            r.spec_focused() is None,
            r.spec_pending() is None,
            r.spec_next_id() == 0,
            r.spec_monitor_origin() == origin,
            r.spec_monitor_size() == size,
            r.spec_reserved() is None,
    {
        Workspace {
            name,
            monitor_id,
            monocle: false,
            focused_node: None,
            pending_split: None,
            root: None,
            arena: Arena::new(),
            monitor_origin: origin,
            monitor_size: size,
            reserved: None,
            down: Ghost(Map::empty()),
            up: Ghost(Map::empty()),
        }
    }

    // -----------------------------------------------------------------------
    // Queries
    // -----------------------------------------------------------------------

    /// The lowest-numbered leaf holding `window_id`, if any.
    pub fn find_window(&self, window_id: WindowId) -> (r: Option<NodeId>)
        requires
            self.wf(),
        ensures
            match r {
                Some(n) => holds(self.nodes(), n, window_id) && forall|k: NodeId|
                    k < n ==> !holds(self.nodes(), k, window_id),
                None => forall|k: NodeId| !holds(self.nodes(), k, window_id),
            },
    {
        let end = self.arena.next_id();
        let mut i: u64 = 0;
        while i < end
            invariant
                self.wf(),
                end == self.spec_next_id(),
                i <= end,
                forall|k: NodeId| k < i ==> !holds(self.nodes(), k, window_id),
            decreases end - i,
        {
            match self.arena.get(i) {
                Some(node) => {
                    match node.data {
                        NodeData::Window { window_id: wid, .. } => {
                            if wid == window_id {
                                return Some(i);
                            }
                        },
                        NodeData::Split { .. } => {},
                    }
                },
                None => {},
            }
            i = i + 1;
        }
        proof {
            assert forall|k: NodeId| !holds(self.nodes(), k, window_id) by {
                if k >= end && self.nodes().contains_key(k) {
                    assert(self.arena.ids_wf());
                }
            }
        }
        None
    }

    /// The windows of all leaves, ordered by node id.
    pub fn all_windows(&self) -> (r: Vec<WindowId>)
        requires
            self.wf(),
        ensures
            r@ == self.window_seq(),
    {
        let end = self.arena.next_id();
        let mut out: Vec<WindowId> = Vec::new();
        let mut i: u64 = 0;
        while i < end
            invariant
                self.wf(),
                end == self.spec_next_id(),
                i <= end,
                out@ == windows_below(self.nodes(), i as nat),
            decreases end - i,
        {
            match self.arena.get(i) {
                Some(node) => {
                    match node.data {
                        NodeData::Window { window_id, .. } => {
                            out.push(window_id);
                        },
                        NodeData::Split { .. } => {},
                    }
                },
                None => {},
            }
            i = i + 1;
        }
        out
    }

    /// Total number of window leaves in the tree.
    pub fn window_count(&self) -> (r: usize)
        requires
            self.wf(),
        ensures
            r == self.window_seq().len(),
    {
        self.all_windows().len()
    }

    /// Whether the workspace can still take a window (its node ids are not
    /// exhausted).
    pub fn can_add_window(&self) -> (r: bool)
        ensures
            r == self.can_allocate(),
    {
        self.arena.next_id() < 0xFFFF_FFFF_FFFF_FFFD
    }

    /// The root node of the tree, if any.
    pub fn root(&self) -> (r: Option<NodeId>)
        ensures
            r == self.spec_root(),
    {
        self.root
    }

    /// The focused node, if any.
    pub fn focused_node(&self) -> (r: Option<NodeId>)
        ensures
            r == self.spec_focused(),
    {
        self.focused_node
    }

    /// The tree's node storage.
    pub fn arena(&self) -> (r: &Arena)
        ensures
            r.spec_nodes() == self.nodes(),
            r.spec_next_id() == self.spec_next_id(),
    {
        &self.arena
    }

    /// The window held by the focused leaf, if any.
    pub fn focused_window_id(&self) -> (r: Option<WindowId>)
        requires
            self.wf(),
        ensures
            match self.spec_focused() {
                Some(f) => r == Some(window_of(self.nodes(), f)),
                None => r is None,
            },
    {
        match self.focused_node {
            Some(f) => match self.arena.get(f) {
                Some(node) => match node.data {
                    NodeData::Window { window_id, .. } => Some(window_id),
                    NodeData::Split { .. } => None,
                },
                None => None,
            },
            None => None,
        }
    }

    pub fn name(&self) -> (r: &String)
        ensures
            r@ == self.spec_name(),
    {
        &self.name
    }

    pub fn monitor_id(&self) -> (r: u32)
        ensures
            r == self.spec_monitor_id(),
    {
        self.monitor_id
    }

    pub fn monocle(&self) -> (r: bool)
        ensures
            r == self.spec_monocle(),
    {
        self.monocle
    }

    /// Show only the focused window (`true`) or tile all windows (`false`).
    pub fn set_monocle(&mut self, monocle: bool)
        requires
            old(self).wf(),
        ensures
            final(self).wf(),
            final(self).spec_monocle() == monocle,
            final(self).spec_name() == old(self).spec_name(),
            final(self).spec_monitor_id() == old(self).spec_monitor_id(),
            final(self).spec_monitor_origin() == old(self).spec_monitor_origin(),
            final(self).spec_monitor_size() == old(self).spec_monitor_size(),
            final(self).spec_reserved() == old(self).spec_reserved(),
            final(self).nodes() == old(self).nodes(),
            final(self).spec_root() == old(self).spec_root(),
            final(self).spec_focused() == old(self).spec_focused(),
            final(self).spec_pending() == old(self).spec_pending(),
            final(self).spec_next_id() == old(self).spec_next_id(),
    {
        self.monocle = monocle;
    }

    /// Bind the workspace to another monitor.
    pub fn set_monitor_id(&mut self, monitor_id: u32)
        requires
            old(self).wf(),
        ensures
            final(self).wf(),
            final(self).spec_monitor_id() == monitor_id,
            final(self).spec_monocle() == old(self).spec_monocle(),
            final(self).spec_name() == old(self).spec_name(),
            final(self).spec_monitor_origin() == old(self).spec_monitor_origin(),
            final(self).spec_monitor_size() == old(self).spec_monitor_size(),
            final(self).spec_reserved() == old(self).spec_reserved(),
            final(self).nodes() == old(self).nodes(),
            final(self).spec_root() == old(self).spec_root(),
            final(self).spec_focused() == old(self).spec_focused(),
            final(self).spec_pending() == old(self).spec_pending(),
            final(self).spec_next_id() == old(self).spec_next_id(),
    {
        self.monitor_id = monitor_id;
    }

    /// Whether this workspace belongs to the display `display_id`.
    pub fn is_on_monitor(&self, display_id: u32) -> (r: bool)
        ensures
            r == (self.spec_monitor_id() == display_id),
    {
        self.monitor_id == display_id
    }

    /// Flip between tiling and monocle.
    pub fn toggle_monocle(&mut self)
        requires
            old(self).wf(),
        ensures
            final(self).wf(),
            final(self).spec_monocle() == !old(self).spec_monocle(),
            final(self).spec_name() == old(self).spec_name(),
            final(self).spec_monitor_id() == old(self).spec_monitor_id(),
            final(self).spec_monitor_origin() == old(self).spec_monitor_origin(),
            final(self).spec_monitor_size() == old(self).spec_monitor_size(),
            final(self).spec_reserved() == old(self).spec_reserved(),
            final(self).nodes() == old(self).nodes(),
            final(self).spec_root() == old(self).spec_root(),
            final(self).spec_focused() == old(self).spec_focused(),
            final(self).spec_pending() == old(self).spec_pending(),
            final(self).spec_next_id() == old(self).spec_next_id(),
    {
        self.monocle = !self.monocle;
    }


    // -----------------------------------------------------------------------
    // Window management
    // -----------------------------------------------------------------------

    /// Move the focus mark to `node_id` and make it the focused node.
    fn set_focused_node(&mut self, node_id: NodeId)
        requires
            old(self).arena.ids_wf(),
        ensures
            final(self).arena.ids_wf(),
            final(self).nodes() == refocus(old(self).nodes(), old(self).focused_node, node_id),
            final(self).focused_node == Some(node_id),
            final(self).root == old(self).root,
            final(self).pending_split == old(self).pending_split,
            final(self).spec_next_id() == old(self).spec_next_id(),
            final(self).down == old(self).down,
            final(self).up == old(self).up,
            Self::same_settings(final(self), old(self)),
    {
        if let Some(old_id) = self.focused_node {
            match self.arena.get(old_id) {
                Some(n) => match n.data {
                    NodeData::Window { window_id, .. } => {
                        self.arena.set_data(old_id, NodeData::Window { window_id, is_focused: false });
                    },
                    NodeData::Split { .. } => {},
                },
                None => {},
            }
        }
        self.focused_node = Some(node_id);
        match self.arena.get(node_id) {
            Some(n) => match n.data {
                NodeData::Window { window_id, .. } => {
                    self.arena.set_data(node_id, NodeData::Window { window_id, is_focused: true });
                },
                NodeData::Split { .. } => {},
            },
            None => {},
        }
        proof {
            let m0 = old(self).nodes();
            let m1 = crate::shape::unfocus(m0, old(self).focused_node);
            assert(self.nodes() =~= refocus(m0, old(self).focused_node, node_id));
        }
    }

    /// Replace the leaf `f` by a split along `dir` holding `f` and a new
    /// leaf for `w`; the new leaf gets the next id and the split the one after.
    fn insert_split_at_leaf(&mut self, f: NodeId, w: WindowId, dir: SplitDirection) -> (r: NodeId)
        requires
            old(self).arena.ids_wf(),
            tree_wf(old(self).nodes(), old(self).root, old(self).down@, old(self).up@),
            is_window(old(self).nodes(), f),
            old(self).can_allocate(),
        ensures
            r == old(self).spec_next_id(),
            final(self).spec_next_id() == r + 2,
            final(self).arena.ids_wf(),
            final(self).nodes() == split_leaf(old(self).nodes(), f, r, (r + 1) as NodeId, dir, w),
            final(self).root == split_root(old(self).nodes(), old(self).root, f, (r + 1) as NodeId),
            tree_wf(final(self).nodes(), final(self).root, final(self).down@, final(self).up@),
            final(self).focused_node == old(self).focused_node,
            final(self).pending_split == old(self).pending_split,
            Self::same_settings(final(self), old(self)),
    {
        let ghost m0 = self.nodes();
        let old_parent = self.arena.get(f).unwrap().parent;
        let new_id = self.arena.allocate(NodeData::Window { window_id: w, is_focused: true });
        let split_id = self.arena.allocate(NodeData::Split { direction: dir });
        let mut ch: Vec<NodeId> = Vec::new();
        ch.push(f);
        ch.push(new_id);
        assert(ch@ =~= seq![f, new_id]);
        self.arena.set_children(split_id, ch);
        self.arena.set_parent(f, Some(split_id));
        self.arena.set_parent(new_id, Some(split_id));
        match old_parent {
            Some(pid) => {
                assert(m0.contains_key(pid) && m0[pid].children.contains(f));
                let mut c = self.arena.get(pid).unwrap().children.clone();
                assert(c@ == m0[pid].children);
                let i = position(&c, f).unwrap();
                proof {
                    lemma_unique_index(m0[pid].children, f, i as int);
                }
                c.set(i, split_id);
                self.arena.set_children(pid, c);
                self.arena.set_parent(split_id, Some(pid));
            },
            None => {
                self.root = Some(split_id);
            },
        }
        proof {
            let m2 = split_leaf(m0, f, new_id, split_id, dir, w);
            assert(self.nodes().dom() =~= m2.dom());
            assert forall|k: NodeId| #[trigger] m2.contains_key(k) implies self.nodes()[k] == m2[k] by {
                if k == split_id {
                    assert(self.nodes()[k].children =~= m2[k].children);
                }
            }
            assert(self.nodes() =~= split_leaf(m0, f, new_id, split_id, dir, w));
            lemma_split_leaf(m0, old(self).root, old(self).down@, old(self).up@, f, new_id, split_id, dir, w);
        }
        self.down = Ghost(split_down(old(self).down@, f, new_id, split_id));
        self.up = Ghost(split_up(old(self).up@, f, new_id, split_id));
        new_id
    }

    /// Append a new leaf for `w` to the split `p`; the leaf gets the next id.
    fn append_leaf_to(&mut self, p: NodeId, w: WindowId) -> (r: NodeId)
        requires
            old(self).arena.ids_wf(),
            tree_wf(old(self).nodes(), old(self).root, old(self).down@, old(self).up@),
            old(self).nodes().contains_key(p),
            old(self).nodes()[p].data is Split,
            old(self).can_allocate(),
        ensures
            r == old(self).spec_next_id(),
            final(self).spec_next_id() == r + 1,
            final(self).arena.ids_wf(),
            final(self).nodes() == append_leaf(old(self).nodes(), p, r, w),
            final(self).root == old(self).root,
            tree_wf(final(self).nodes(), final(self).root, final(self).down@, final(self).up@),
            final(self).focused_node == old(self).focused_node,
            final(self).pending_split == old(self).pending_split,
            Self::same_settings(final(self), old(self)),
    {
        let ghost m0 = self.nodes();
        let new_id = self.arena.allocate(NodeData::Window { window_id: w, is_focused: true });
        let mut c = self.arena.get(p).unwrap().children.clone();
        c.push(new_id);
        self.arena.set_children(p, c);
        self.arena.set_parent(new_id, Some(p));
        proof {
            assert(self.nodes() =~= append_leaf(m0, p, new_id, w));
            lemma_append_leaf(m0, old(self).root, old(self).down@, old(self).up@, p, new_id, w);
        }
        self.down = Ghost(old(self).down@.insert(new_id, 0));
        self.up = Ghost(old(self).up@.insert(new_id, old(self).up@[p] + 1));
        new_id
    }

    /// Which master-stack insertion applies to the current tree.
    fn master_case_exec(&self) -> (r: MasterCase)
        requires
            self.wf(),
        ensures
            r == master_case(self.nodes(), self.root),
    {
        let root_id = match self.root {
            Some(r) => r,
            None => return MasterCase::Inapplicable,
        };
        if self.arena.len() == 1 {
            if self.arena.is_leaf(root_id) {
                return MasterCase::Single;
            }
            return MasterCase::Inapplicable;
        }
        let root_node = self.arena.get(root_id).unwrap();
        match root_node.data {
            NodeData::Split { direction: SplitDirection::Vertical } => {},
            _ => return MasterCase::Inapplicable,
        }
        if root_node.children.len() != 2 {
            return MasterCase::Inapplicable;
        }
        let left = root_node.children[0];
        let right = root_node.children[1];
        if !self.arena.is_leaf(left) {
            return MasterCase::Inapplicable;
        }
        match self.arena.get(right) {
            Some(rn) => match rn.data {
                NodeData::Window { .. } => MasterCase::NewStack(right),
                NodeData::Split { .. } => MasterCase::Inapplicable,
            },
            None => MasterCase::Inapplicable,
        }
    }

    /// The direction of the split directly above `f`, if there is one.
    fn parent_split_direction(&self, f: NodeId) -> (r: Option<SplitDirection>)
        ensures
            r == parent_split_dir(self.nodes(), f),
    {
        match self.arena.get(f) {
            Some(n) => match n.parent {
                Some(pid) => match self.arena.get(pid) {
                    Some(p) => match p.data {
                        NodeData::Split { direction } => Some(direction),
                        NodeData::Window { .. } => None,
                    },
                    None => None,
                },
                None => None,
            },
            None => None,
        }
    }

    /// The split direction used when none was requested.
    fn next_direction(&self) -> (r: SplitDirection)
        ensures
            r == next_direction(self.nodes(), self.focused_node, self.monitor_size),
    {
        let default = if self.monitor_size.0 > self.monitor_size.1 {
            SplitDirection::Vertical
        } else {
            SplitDirection::Horizontal
        };
        match self.focused_node {
            Some(f) => match self.parent_split_direction(f) {
                Some(SplitDirection::Horizontal) => SplitDirection::Vertical,
                Some(SplitDirection::Vertical) => SplitDirection::Horizontal,
                None => default,
            },
            None => default,
        }
    }

    /// Insert window `window_id` and focus it. An empty tree gets it as its
    /// root. Without a requested or pending direction a single window gets
    /// the new one beside it, and a left window with a lone right window
    /// gets the new one stacked under the right one; otherwise the focused
    /// leaf is
    /// split along the requested, pending or next direction, joining the
    /// split above it when that already runs along the same direction.
    pub fn add_window(&mut self, window_id: WindowId, direction: Option<SplitDirection>) -> (r: NodeId)
        requires
            old(self).wf(),
            old(self).can_allocate(),
        ensures
            final(self).wf(),
            r == old(self).spec_next_id(),
            ({
                let (m2, root2, pending2) = add_shape(
                    old(self).nodes(),
                    old(self).spec_root(),
                    old(self).spec_focused(),
                    old(self).spec_pending(),
                    direction,
                    old(self).spec_monitor_size(),
                    window_id,
                    r,
                );
                &&& final(self).nodes() == refocus(m2, old(self).spec_focused(), r)
                &&& final(self).spec_root() == root2
                &&& final(self).spec_pending() == pending2
                &&& final(self).spec_next_id() == if m2.contains_key((r + 1) as NodeId) {
                    r + 2
                } else {
                    r + 1
                }
            }),
            old(self).spec_next_id() < final(self).spec_next_id() <= old(self).spec_next_id() + 2,
            final(self).spec_focused() == Some(r),
            holds(final(self).nodes(), r, window_id),
            final(self).window_seq() == old(self).window_seq().push(window_id),
            Self::same_settings(final(self), old(self)),
    {
        let ghost m0 = self.nodes();
        let ghost f0 = self.focused_node;
        let ghost next0 = self.spec_next_id();
        if self.root.is_none() {
            let id = self.arena.allocate(NodeData::Window { window_id, is_focused: true });
            self.root = Some(id);
            self.focused_node = Some(id);
            self.down = Ghost(Map::empty().insert(id, 0));
            self.up = Ghost(Map::empty().insert(id, 0));
            proof {
                let m2 = self.nodes();
                assert(m2 =~= add_shape(m0, None, f0, self.pending_split, direction, self.monitor_size, window_id, id).0);
                assert(m2 =~= refocus(m2, f0, id));
                assert forall|k: NodeId| #[trigger] m0.contains_key(k) implies false by {
                    assert(old(self).root is None);
                }
                assert forall|j: NodeId| j < next0 implies is_window(m2, j) == is_window(m0, j) by {}
                lemma_windows_push(m0, m2, next0 as nat, self.spec_next_id() as nat, window_id);
            }
            return id;
        }
        let explicit = direction.is_some() || self.pending_split.is_some();
        if !explicit {
            match self.master_case_exec() {
                MasterCase::Single => {
                    let root_id = self.root.unwrap();
                    let id = self.insert_split_at_leaf(root_id, window_id, SplitDirection::Vertical);
                    let ghost m1 = self.nodes();
                    self.set_focused_node(id);
                    proof {
                        lemma_split_windows(m0, root_id, id, (id + 1) as NodeId, SplitDirection::Vertical, window_id);
                        self.lemma_focus_finish(m1, f0, id);
                        lemma_add_seq(m0, m1, self.nodes(), next0, self.spec_next_id(), window_id);
                    }
                    return id;
                },
                MasterCase::NewStack(right) => {
                    let id = self.insert_split_at_leaf(right, window_id, SplitDirection::Horizontal);
                    let ghost m1 = self.nodes();
                    self.set_focused_node(id);
                    proof {
                        lemma_split_windows(m0, right, id, (id + 1) as NodeId, SplitDirection::Horizontal, window_id);
                        self.lemma_focus_finish(m1, f0, id);
                        lemma_add_seq(m0, m1, self.nodes(), next0, self.spec_next_id(), window_id);
                    }
                    return id;
                },
                MasterCase::Inapplicable => {},
            }
        }
        let dir = match direction {
            Some(d) => d,
            None => match self.pending_split.take() {
                Some(d) => d,
                None => self.next_direction(),
            },
        };
        let focused = self.focused_node.unwrap();
        if self.parent_split_direction(focused) == Some(dir) {
            let parent_id = self.arena.get(focused).unwrap().parent.unwrap();
            let id = self.append_leaf_to(parent_id, window_id);
            let ghost m1 = self.nodes();
            self.set_focused_node(id);
            proof {
                lemma_append_windows(m0, parent_id, id, window_id);
                self.lemma_focus_finish(m1, f0, id);
                lemma_add_seq(m0, m1, self.nodes(), next0, self.spec_next_id(), window_id);
            }
            id
        } else {
            let id = self.insert_split_at_leaf(focused, window_id, dir);
            let ghost m1 = self.nodes();
            self.set_focused_node(id);
            proof {
                lemma_split_windows(m0, focused, id, (id + 1) as NodeId, dir, window_id);
                self.lemma_focus_finish(m1, f0, id);
                lemma_add_seq(m0, m1, self.nodes(), next0, self.spec_next_id(), window_id);
            }
            id
        }
    }

    /// After a structural edit that left tree `m1` well formed with window
    /// leaf `n`, moving the focus to `n` leaves a well-formed workspace.
    proof fn lemma_focus_finish(&self, m1: Map<NodeId, NodeView>, f0: Option<NodeId>, n: NodeId)
        requires
            self.arena.ids_wf(),
            tree_wf(m1, self.root, self.down@, self.up@),
            is_window(m1, n),
            self.root is Some,
            self.focused_node == Some(n),
            self.nodes() == refocus(m1, f0, n),
        ensures
            self.wf(),
            same_windows(m1, self.nodes()),
    {
        lemma_refocus(m1, f0, n);
        lemma_same_shape(m1, self.nodes(), self.root, self.down@, self.up@);
    }
}


impl Workspace {
    /// The leaf reached from `node_id` by always taking the first child.
    fn leftmost_leaf(&self, node_id: NodeId) -> (r: NodeId)
        requires
            self.wf(),
            self.nodes().contains_key(node_id),
        ensures
            is_first_leaf(self.nodes(), node_id, r),
        decreases self.down@[node_id],
    {
        let node = self.arena.get(node_id).unwrap();
        match node.data {
            NodeData::Window { .. } => {
                assert(descend_first(self.nodes(), node_id, 0) == node_id);
                node_id
            },
            NodeData::Split { .. } => {
                let c = node.children[0];
                assert(self.nodes()[node_id].children[0] == c);
                let r = self.leftmost_leaf(c);
                proof {
                    let k = choose|k: nat| descend_first(self.nodes(), c, k) == r;
                    assert(descend_first(self.nodes(), node_id, k + 1) == r);
                }
                r
            },
        }
    }

    /// The leaf reached from `node_id` by always taking the last child.
    fn rightmost_leaf(&self, node_id: NodeId) -> (r: NodeId)
        requires
            self.wf(),
            self.nodes().contains_key(node_id),
        ensures
            is_last_leaf(self.nodes(), node_id, r),
        decreases self.down@[node_id],
    {
        let node = self.arena.get(node_id).unwrap();
        match node.data {
            NodeData::Window { .. } => {
                assert(descend_last(self.nodes(), node_id, 0) == node_id);
                node_id
            },
            NodeData::Split { .. } => {
                let c = node.children[node.children.len() - 1];
                assert(self.nodes()[node_id].children.last() == c);
                let r = self.rightmost_leaf(c);
                proof {
                    let k = choose|k: nat| descend_last(self.nodes(), c, k) == r;
                    assert(descend_last(self.nodes(), node_id, k + 1) == r);
                }
                r
            },
        }
    }

    /// After the leaf below `p` was detached, collapse `p` when it is left
    /// with a single child.
    fn collapse_upward(&mut self, Ghost(m): Ghost<Map<NodeId, NodeView>>, Ghost(x): Ghost<NodeId>, p: NodeId)
        requires
            old(self).arena.ids_wf(),
            tree_wf(m, old(self).root, old(self).down@, old(self).up@),
            is_window(m, x),
            m[x].parent == Some(p),
            old(self).nodes() == detach(m, x),
        ensures
            final(self).arena.ids_wf(),
            (final(self).nodes(), final(self).root) == remove_shape(m, old(self).root, x),
            final(self).down == old(self).down,
            final(self).up == old(self).up,
            final(self).focused_node == old(self).focused_node,
            final(self).pending_split == old(self).pending_split,
            final(self).spec_next_id() == old(self).spec_next_id(),
            Self::same_settings(final(self), old(self)),
    {
        proof {
            lemma_detach_facts(m, old(self).root, old(self).down@, old(self).up@, x);
        }
        let ghost m1 = self.nodes();
        let children = self.arena.get(p).unwrap().children.clone();
        if children.len() >= 2 {
            return;
        }
        let only = children[0];
        proof {
            assert(m1[p].children.contains(only));
            assert(m[p].children.contains(only));
            let t = choose|t: int| 0 <= t < m[p].children.len() && m[p].children[t] == only;
            assert(m.contains_key(m[p].children[t]) && m[only].parent == Some(p));
            assert(only != x && only != p);
            assert(m1[p].children =~= seq![only]);
        }
        let is_split = match self.arena.get(only).unwrap().data {
            NodeData::Split { .. } => true,
            NodeData::Window { .. } => false,
        };
        if is_split {
            proof {
                let g = m[only].children;
                assert forall|j: int| 0 <= j < g.len() implies m1.contains_key(g[j]) && m1[g[j]].parent == Some(
                    only,
                ) && g[j] != p && g[j] != only by {
                    assert(m.contains_key(g[j]) && m[g[j]].parent == Some(only));
                    assert(g[j] != x);
                }
                assert forall|k: NodeId| #[trigger] m1.contains_key(k) && k != only implies (m1[k].parent == Some(
                    only,
                ) <==> g.contains(k)) by {
                    if m1[k].parent == Some(only) {
                        assert(k != p);
                        assert(m[k].parent == Some(only));
                        assert(m[only].children.contains(k));
                    }
                    if g.contains(k) {
                        let u = choose|u: int| 0 <= u < g.len() && g[u] == k;
                        assert(m.contains_key(g[u]) && m[g[u]].parent == Some(only));
                    }
                }
            }
            self.absorb_only_child(Ghost(m1), p, only);
        } else {
            proof {
                if let Some(g) = m[p].parent {
                    assert(m.contains_key(g) && m[g].children.contains(p));
                    assert(g != x) by {
                        assert(m[x].children.len() == 0);
                    }
                    assert(g != only && g != p);
                    assert(!m[g].children.contains(only)) by {
                        if m[g].children.contains(only) {
                            let u = choose|u: int| 0 <= u < m[g].children.len() && m[g].children[u] == only;
                            assert(m.contains_key(m[g].children[u]));
                        }
                    }
                }
            }
            self.promote_only_child(Ghost(m1), p, only);
        }
    }

    /// The split `p`, whose only child is the split `only`, takes over
    /// `only`'s children; `only` goes.
    fn absorb_only_child(&mut self, Ghost(m1): Ghost<Map<NodeId, NodeView>>, p: NodeId, only: NodeId)
        requires
            old(self).arena.ids_wf(),
            old(self).nodes() == m1,
            m1.contains_key(p),
            m1.contains_key(only),
            only != p,
            m1[p].children == seq![only],
            m1[only].parent == Some(p),
            forall|j: int|
                0 <= j < m1[only].children.len() ==> m1.contains_key(#[trigger] m1[only].children[j])
                    && m1[m1[only].children[j]].parent == Some(only) && m1[only].children[j] != p
                    && m1[only].children[j] != only,
            forall|k: NodeId|
                #[trigger] m1.contains_key(k) && k != only ==> (m1[k].parent == Some(only) <==> m1[only].children.contains(k)),
        ensures
            final(self).arena.ids_wf(),
            final(self).nodes() == absorb(m1, p, only),
            final(self).root == old(self).root,
            final(self).down == old(self).down,
            final(self).up == old(self).up,
            final(self).focused_node == old(self).focused_node,
            final(self).pending_split == old(self).pending_split,
            final(self).spec_next_id() == old(self).spec_next_id(),
            Self::same_settings(final(self), old(self)),
    {
        let grand = self.arena.get(only).unwrap().children.clone();
        let ghost g = grand@;
        self.arena.set_children(p, grand.clone());
        let mut i: usize = 0;
        while i < grand.len()
            invariant
                self.arena.ids_wf(),
                self.spec_next_id() == old(self).spec_next_id(),
                self.root == old(self).root,
                self.down == old(self).down,
                self.up == old(self).up,
                self.focused_node == old(self).focused_node,
                self.pending_split == old(self).pending_split,
                Self::same_settings(self, old(self)),
                g == grand@,
                g == m1[only].children,
                0 <= i <= g.len(),
                m1.contains_key(p),
                m1.contains_key(only),
                only != p,
                m1[only].parent == Some(p),
                forall|j: int|
                    0 <= j < g.len() ==> m1.contains_key(#[trigger] g[j]) && g[j] != p && g[j] != only,
                forall|k: NodeId| #[trigger] self.nodes().contains_key(k) == m1.contains_key(k),
                forall|k: NodeId|
                    #[trigger] self.nodes().contains_key(k) ==> self.nodes()[k] == (if k == p {
                        NodeView { children: g, ..m1[p] }
                    } else if g.subrange(0, i as int).contains(k) {
                        NodeView { parent: Some(p), ..m1[k] }
                    } else {
                        m1[k]
                    }),
            decreases g.len() - i,
        {
            let gc = grand[i];
            assert(g[i as int] == gc);
            assert(m1.contains_key(gc));
            assert(self.nodes().contains_key(gc));
            let ghost before = self.nodes();
            self.arena.set_parent(gc, Some(p));
            i = i + 1;
            proof {
                assert(self.nodes().dom() =~= before.dom());
                let s1 = g.subrange(0, i as int);
                let s0 = g.subrange(0, i - 1);
                assert(s1 =~= s0.push(gc));
                assert forall|k: NodeId| #[trigger] s1.contains(k) <==> (s0.contains(k) || k == gc) by {
                    if s1.contains(k) {
                        let u = choose|u: int| 0 <= u < s1.len() && s1[u] == k;
                        if u < s0.len() {
                            assert(s0[u] == k);
                        }
                    }
                    if s0.contains(k) {
                        let u = choose|u: int| 0 <= u < s0.len() && s0[u] == k;
                        assert(s1[u] == k);
                    }
                    if k == gc {
                        assert(s1[s0.len() as int] == k);
                    }
                }
            }
        }
        assert(self.nodes().contains_key(only));
        assert(!g.subrange(0, g.len() as int).contains(only)) by {
            if g.subrange(0, g.len() as int).contains(only) {
                let u = choose|u: int| 0 <= u < g.len() && g.subrange(0, g.len() as int)[u] == only;
                assert(g[u] == only);
            }
        }
        self.arena.set_children(only, Vec::new());
        let ghost m3 = self.nodes();
        self.arena.remove(only);
        proof {
            assert(g.subrange(0, g.len() as int) =~= g);
            assert(m3[only].parent == Some(p));
            assert(!g.contains(only)) by {
                if g.contains(only) {
                    let u = choose|u: int| 0 <= u < g.len() && g[u] == only;
                    assert(g[u] != only);
                }
            }
            m3[p].children.index_of_first_ensures(only);
            assert(m3[p].children.remove_value(only) == g);
            let a = absorb(m1, p, only);
            assert(self.nodes() =~= a);
        }
    }

    /// The split `p`, whose only child is the leaf `only`, gives its place
    /// to `only` and goes.
    fn promote_only_child(&mut self, Ghost(m1): Ghost<Map<NodeId, NodeView>>, p: NodeId, only: NodeId)
        requires
            old(self).arena.ids_wf(),
            old(self).nodes() == m1,
            m1.contains_key(p),
            m1.contains_key(only),
            only != p,
            m1[p].children == seq![only],
            m1[only].parent == Some(p),
            m1[p].parent matches Some(g) ==> m1.contains_key(g) && g != p && g != only
                && m1[g].children.no_duplicates() && m1[g].children.contains(p) && !m1[g].children.contains(only),
        ensures
            final(self).arena.ids_wf(),
            (final(self).nodes(), final(self).root) == promote(m1, old(self).root, p, only),
            final(self).down == old(self).down,
            final(self).up == old(self).up,
            final(self).focused_node == old(self).focused_node,
            final(self).pending_split == old(self).pending_split,
            final(self).spec_next_id() == old(self).spec_next_id(),
            Self::same_settings(final(self), old(self)),
    {
        let gp = self.arena.get(p).unwrap().parent;
        self.arena.set_parent(only, gp);
        match gp {
            Some(g) => {
                let mut c = self.arena.get(g).unwrap().children.clone();
                let i = position(&c, p).unwrap();
                proof {
                    lemma_unique_index(m1[g].children, p, i as int);
                }
                c.set(i, only);
                self.arena.set_children(g, c);
            },
            None => {
                self.root = Some(only);
            },
        }
        self.arena.set_children(p, Vec::new());
        let ghost m3 = self.nodes();
        self.arena.remove(p);
        proof {
            let r = promote(m1, old(self).root, p, only);
            match gp {
                Some(g) => {
                    let i0 = crate::shape::pos(m1[g].children, p);
                    assert(!m3[g].children.contains(p)) by {
                        if m3[g].children.contains(p) {
                            let u = choose|u: int| 0 <= u < m3[g].children.len() && m3[g].children[u] == p;
                            assert(u != i0);
                            assert(m1[g].children[u] == p);
                        }
                    }
                    m3[g].children.index_of_first_ensures(p);
                    assert(m3[g].children.remove_value(p) == m3[g].children);
                    assert(self.nodes() =~= r.0);
                },
                None => {
                    assert(self.nodes() =~= r.0);
                },
            }
        }
    }

    /// Remove `window_id`'s leaf (the lowest-numbered one holding it) from the
    /// tree. A split left with a single child collapses; when the removed
    /// leaf had the focus, the focus moves to the first leaf of the tree.
    pub fn remove_window(&mut self, window_id: WindowId)
        requires
            old(self).wf(),
        ensures
            final(self).wf(),
            Self::same_settings(final(self), old(self)),
            final(self).spec_pending() == old(self).spec_pending(),
            final(self).spec_next_id() == old(self).spec_next_id(),
            !window_set(old(self).nodes()).contains(window_id) ==> final(self).nodes() == old(self).nodes()
                && final(self).spec_root() == old(self).spec_root() && final(self).spec_focused() == old(
                self,
            ).spec_focused(),
            window_set(old(self).nodes()).contains(window_id) ==> exists|p: int|
                0 <= p < old(self).window_seq().len() && old(self).window_seq()[p] == window_id
                    && final(self).window_seq() == #[trigger] old(self).window_seq().remove(p),
            forall|x: NodeId|
                holds(old(self).nodes(), x, window_id) && (forall|j: NodeId| j < x ==> !holds(old(self).nodes(), j, window_id)) ==> {
                    let (m2, root2) = remove_shape(old(self).nodes(), old(self).spec_root(), x);
                    &&& final(self).spec_root() == root2
                    &&& final(self).window_seq() == old(self).window_seq().remove(
                        windows_below(old(self).nodes(), x as nat).len() as int,
                    )
                    &&& if old(self).spec_focused() != Some(x) {
                        final(self).nodes() == m2 && final(self).spec_focused() == old(self).spec_focused()
                    } else if root2 is None {
                        final(self).nodes() == m2 && final(self).spec_focused() is None
                    } else {
                        &&& final(self).spec_focused() is Some
                        &&& is_first_leaf(m2, root2->0, final(self).spec_focused()->0)
                        &&& final(self).nodes() == refocus(m2, Some(x), final(self).spec_focused()->0)
                    }
                },
    {
        let ghost m0 = self.nodes();
        let ghost n0 = self.spec_next_id();
        let ghost s0 = self.window_seq();
        let found = self.find_window(window_id);
        self.remove_window_leaf(window_id);
        proof {
            match found {
                Some(x) => {
                    let p = windows_below(m0, x as nat).len() as int;
                    assert(x < n0) by {
                        assert(old(self).arena.ids_wf());
                    }
                    crate::shape::lemma_windows_index(m0, x as nat, n0 as nat);
                    assert(s0[p] == window_id);
                    assert(self.window_seq() == s0.remove(p));
                },
                None => {
                    assert(!window_set(m0).contains(window_id));
                },
            }
        }
    }

    /// Remove the lowest-numbered leaf holding `window_id`, with the
    /// tree-level account of the result.
    fn remove_window_leaf(&mut self, window_id: WindowId)
        requires
            old(self).wf(),
        ensures
            final(self).wf(),
            Self::same_settings(final(self), old(self)),
            final(self).spec_pending() == old(self).spec_pending(),
            final(self).spec_next_id() == old(self).spec_next_id(),
            (forall|k: NodeId| !holds(old(self).nodes(), k, window_id)) ==> final(self).nodes() == old(
                self,
            ).nodes() && final(self).spec_root() == old(self).spec_root() && final(self).spec_focused() == old(
                self,
            ).spec_focused(),
            forall|x: NodeId|
                holds(old(self).nodes(), x, window_id) && (forall|j: NodeId| j < x ==> !holds(old(self).nodes(), j, window_id)) ==> {
                    let (m2, root2) = remove_shape(old(self).nodes(), old(self).spec_root(), x);
                    &&& final(self).spec_root() == root2
                    &&& final(self).window_seq() == old(self).window_seq().remove(
                        windows_below(old(self).nodes(), x as nat).len() as int,
                    )
                    &&& if old(self).spec_focused() != Some(x) {
                        final(self).nodes() == m2 && final(self).spec_focused() == old(self).spec_focused()
                    } else if root2 is None {
                        final(self).nodes() == m2 && final(self).spec_focused() is None
                    } else {
                        &&& final(self).spec_focused() is Some
                        &&& is_first_leaf(m2, root2->0, final(self).spec_focused()->0)
                        &&& final(self).nodes() == refocus(m2, Some(x), final(self).spec_focused()->0)
                    }
                },
    {
        let node_id = match self.find_window(window_id) {
            Some(id) => id,
            None => return ,
        };
        let ghost m0 = self.nodes();
        let ghost root0 = self.root;
        let ghost f0 = self.focused_node;
        proof {
            lemma_remove_windows(m0, root0, self.down@, self.up@, node_id);
        }
        let was_focused = self.focused_node == Some(node_id);
        if self.arena.len() == 1 {
            proof {
                if m0[node_id].parent is Some {
                    let p = m0[node_id].parent->0;
                    assert(m0.contains_key(p));
                    self.arena.lemma_finite();
                    assert(m0.dom().contains(p) && m0.dom().contains(node_id) && p != node_id) by {
                        assert(m0[p].children.contains(node_id));
                    }
                    assert(m0.dom().len() >= 2) by {
                        vstd::set_lib::lemma_len_subset(set![p, node_id], m0.dom());
                    }
                }
            }
            self.arena.remove(node_id);
            self.root = None;
            self.focused_node = None;
            proof {
                assert(self.nodes() =~= remove_shape(m0, root0, node_id).0);
                assert forall|k: NodeId| !#[trigger] self.nodes().contains_key(k) by {
                    if self.nodes().contains_key(k) {
                        assert(m0.contains_key(k) && k != node_id);
                        assert(m0.dom().contains(k));
                        self.arena.lemma_finite();
                        vstd::set_lib::lemma_len_subset(set![k, node_id], m0.dom());
                    }
                }
                lemma_windows_remove(m0, self.nodes(), node_id, self.spec_next_id() as nat);
            }
            return ;
        }
        proof {
            if m0[node_id].parent is None {
                assert(root0 == Some(node_id));
                assert forall|k: NodeId| m0.contains_key(k) implies k == node_id by {
                    lemma_root_leaf(m0, root0, self.down@, self.up@, k);
                }
                self.arena.lemma_finite();
                assert(m0.dom() =~= set![node_id]);
                assert(m0.dom().len() == 1);
            }
        }
        let parent_id = self.arena.get(node_id).unwrap().parent.unwrap();
        self.arena.remove(node_id);
        self.collapse_upward(Ghost(m0), Ghost(node_id), parent_id);
        proof {
            let rs = remove_shape(m0, root0, node_id);
            let m1 = detach(m0, node_id);
            lemma_detach_facts(m0, root0, self.down@, self.up@, node_id);
            if m1[parent_id].children.len() >= 2 {
                lemma_remove_keep(m0, root0, self.down@, self.up@, node_id);
            } else if m1[m1[parent_id].children[0]].data is Split {
                lemma_remove_absorb(m0, root0, self.down@, self.up@, node_id);
            } else {
                lemma_remove_promote(m0, root0, self.down@, self.up@, node_id);
            }
            assert(tree_wf(rs.0, rs.1, self.down@, self.up@));
            lemma_windows_remove(m0, rs.0, node_id, self.spec_next_id() as nat);
        }
        if self.root.is_none() {
            self.focused_node = None;
            proof {
                assert(false) by {
                    let m1 = detach(m0, node_id);
                    if m1[parent_id].children.len() < 2 && !(m1[m1[parent_id].children[0]].data is Split) {
                        let o = m1[parent_id].children[0];
                        assert(m1[parent_id].children.contains(o));
                    }
                }
            }
        } else if was_focused {
            let root_id = self.root.unwrap();
            let leaf = self.leftmost_leaf_of(root_id);
            let ghost m2 = self.nodes();
            self.set_focused_node(leaf);
            proof {
                crate::shape::lemma_refocus(m2, Some(node_id), leaf);
                lemma_same_shape(m2, self.nodes(), self.root, self.down@, self.up@);
                crate::shape::lemma_windows_same(m2, self.nodes(), self.spec_next_id() as nat);
            }
        } else {
            proof {
                assert(f0 != Some(node_id));
                let f = f0->0;
                assert(is_window(m0, f));
                assert(is_window(self.nodes(), f));
            }
        }
    }

    /// The first leaf below `root_id` in a tree that is well formed except
    /// possibly for its focus.
    fn leftmost_leaf_of(&self, root_id: NodeId) -> (r: NodeId)
        requires
            self.arena.ids_wf(),
            tree_wf(self.nodes(), self.root, self.down@, self.up@),
            self.root == Some(root_id),
        ensures
            is_first_leaf(self.nodes(), root_id, r),
        decreases self.down@[root_id],
    {
        self.first_leaf_below(root_id)
    }

    fn first_leaf_below(&self, node_id: NodeId) -> (r: NodeId)
        requires
            tree_wf(self.nodes(), self.root, self.down@, self.up@),
            self.nodes().contains_key(node_id),
        ensures
            is_first_leaf(self.nodes(), node_id, r),
        decreases self.down@[node_id],
    {
        let node = self.arena.get(node_id).unwrap();
        match node.data {
            NodeData::Window { .. } => {
                assert(descend_first(self.nodes(), node_id, 0) == node_id);
                node_id
            },
            NodeData::Split { .. } => {
                let c = node.children[0];
                assert(self.nodes()[node_id].children[0] == c);
                let r = self.first_leaf_below(c);
                proof {
                    let k = choose|k: nat| descend_first(self.nodes(), c, k) == r;
                    assert(descend_first(self.nodes(), node_id, k + 1) == r);
                }
                r
            },
        }
    }
}


impl Workspace {
    /// Focus the lowest-numbered leaf holding `window_id`; nothing changes
    /// when no leaf holds it.
    pub fn focus_window(&mut self, window_id: WindowId)
        requires
            old(self).wf(),
        ensures
            final(self).wf(),
            Self::same_settings(final(self), old(self)),
            final(self).spec_root() == old(self).spec_root(),
            final(self).spec_pending() == old(self).spec_pending(),
            final(self).spec_next_id() == old(self).spec_next_id(),
            final(self).window_seq() == old(self).window_seq(),
            window_set(old(self).nodes()).contains(window_id) ==> (final(self).spec_focused() matches Some(x) && holds(
                old(self).nodes(),
                x,
                window_id,
            )),
            (forall|k: NodeId| !holds(old(self).nodes(), k, window_id)) ==> final(self).nodes() == old(
                self,
            ).nodes() && final(self).spec_focused() == old(self).spec_focused(),
            forall|x: NodeId|
                holds(old(self).nodes(), x, window_id) && (forall|j: NodeId| j < x ==> !holds(old(self).nodes(), j, window_id))
                    ==> final(self).spec_focused() == Some(x) && final(self).nodes() == refocus(
                    old(self).nodes(),
                    old(self).spec_focused(),
                    x,
                ),
    {
        let node_id = match self.find_window(window_id) {
            Some(id) => id,
            None => return ,
        };
        let ghost m0 = self.nodes();
        self.set_focused_node(node_id);
        proof {
            self.lemma_focus_finish(m0, old(self).focused_node, node_id);
            crate::shape::lemma_windows_same(m0, self.nodes(), self.spec_next_id() as nat);
            assert forall|x: NodeId|
                holds(m0, x, window_id) && (forall|j: NodeId| j < x ==> !holds(m0, j, window_id)) implies x
                    == node_id by {
                if x < node_id {
                } else if node_id < x {
                    assert(holds(m0, node_id, window_id));
                }
            }
        }
    }

    /// The direction of the split directly above the focused leaf; `None`
    /// when nothing is focused or the focused leaf is the whole tree.
    pub fn focused_split_direction(&self) -> (r: Option<SplitDirection>)
        requires
            self.wf(),
        ensures
            r == match self.spec_focused() {
                None => None,
                Some(f) => parent_split_dir(self.nodes(), f),
            },
    {
        let mut current = match self.focused_node {
            Some(f) => f,
            None => return None,
        };
        let ghost f = current;
        loop
            invariant
                self.wf(),
                self.spec_focused() == Some(f),
                self.nodes().contains_key(current),
                current == f || (self.nodes()[f].parent == Some(current) && self.nodes()[current].data is Split),
            decreases self.up@[current],
        {
            let node = self.arena.get(current).unwrap();
            match node.data {
                NodeData::Split { direction } => return Some(direction),
                NodeData::Window { .. } => {
                    match node.parent {
                        Some(p) => {
                            assert(self.nodes()[p].children.contains(current));
                            current = p;
                        },
                        None => return None,
                    }
                },
            }
        }
    }

    /// Request `direction` for the next window added (the focus is always a
    /// window leaf); without a focus nothing changes.
    pub fn apply_split_direction(&mut self, direction: SplitDirection)
        requires
            old(self).wf(),
        ensures
            final(self).wf(),
            Self::same_settings(final(self), old(self)),
            final(self).nodes() == old(self).nodes(),
            final(self).spec_root() == old(self).spec_root(),
            final(self).spec_focused() == old(self).spec_focused(),
            final(self).spec_next_id() == old(self).spec_next_id(),
            final(self).spec_pending() == if old(self).spec_focused() is Some {
                Some(direction)
            } else {
                old(self).spec_pending()
            },
    {
        if self.focused_is_window() {
            self.pending_split = Some(direction);
        }
    }

    /// True when the focused node is a window leaf.
    fn focused_is_window(&self) -> (r: bool)
        requires
            self.wf(),
        ensures
            r == (self.focused_node is Some),
    {
        match self.focused_node {
            Some(f) => self.arena.is_leaf(f),
            None => false,
        }
    }

    /// The leaf that navigation from `from_node` along `direction` reaches.
    fn find_neighbor(&self, from_node: NodeId, direction: Direction) -> (r: Option<NodeId>)
        requires
            self.wf(),
            self.nodes().contains_key(from_node),
        ensures
            match r {
                Some(t) => is_neighbor(self.nodes(), from_node, direction, t),
                None => has_no_neighbor(self.nodes(), from_node, direction),
            },
    {
        let target_axis = direction.axis();
        let is_forward = direction.is_forward();
        let ghost m = self.nodes();
        let ghost axis = direction_axis(direction);
        let mut current = from_node;
        let ghost mut steps: nat = 0;
        let mut found: (NodeId, NodeId) = (0, 0);
        proof {
            assert forall|k: nat| k <= 0 implies #[trigger] climb(m, from_node, axis, k) is None by {
                crate::shape::lemma_climb_zero(m, from_node, axis);
            }
            assert forall|k: nat| #[trigger] climb(m, current, axis, k) == climb(m, from_node, axis, k + steps) by {
                assert(k + steps == k);
            }
        }
        loop
            invariant
                self.wf(),
                m == self.nodes(),
                target_axis == axis,
                axis == direction_axis(direction),
                m.contains_key(current),
                forall|k: nat| #[trigger] climb(m, current, axis, k) == climb(m, from_node, axis, k + steps),
                forall|k: nat| k <= steps ==> #[trigger] climb(m, from_node, axis, k) is None,
            ensures
                climb(m, from_node, axis, steps + 1) == Some(found),
            decreases self.up@[current],
        {
            let node = self.arena.get(current).unwrap();
            match node.parent {
                Some(pid) => {
                    assert(m[pid].children.contains(current));
                    let parent = self.arena.get(pid).unwrap();
                    let matches_axis = match parent.data {
                        NodeData::Split { direction: d } => d == target_axis,
                        NodeData::Window { .. } => false,
                    };
                    if matches_axis {
                        proof {
                            crate::shape::lemma_climb_found(m, current, pid, axis, 0);
                            assert(climb(m, current, axis, 1) == climb(m, from_node, axis, 1 + steps));
                        }
                        found = (pid, current);
                        break;
                    }
                    proof {
                        let old_steps = steps;
                        assert forall|k: nat| #[trigger] climb(m, pid, axis, k) == climb(m, from_node, axis, k + (old_steps + 1)) by {
                            crate::shape::lemma_climb_pass(m, current, pid, axis, k);
                            assert(climb(m, current, axis, k + 1) == climb(m, from_node, axis, (k + 1) + old_steps));
                        }
                        assert forall|k: nat| k <= old_steps + 1 implies #[trigger] climb(m, from_node, axis, k) is None by {
                            if k == old_steps + 1 {
                                crate::shape::lemma_climb_pass(m, current, pid, axis, 0);
                                crate::shape::lemma_climb_zero(m, pid, axis);
                                assert(climb(m, current, axis, 1) == climb(m, from_node, axis, 1 + old_steps));
                            }
                        }
                        steps = steps + 1;
                    }
                    current = pid;
                },
                None => {
                    proof {
                        assert forall|k: nat| #[trigger] climb(m, from_node, axis, k) is None by {
                            if k > steps {
                                let kk = (k - steps) as nat;
                                crate::shape::lemma_climb_root(m, current, axis, kk);
                                assert(climb(m, current, axis, kk) == climb(m, from_node, axis, kk + steps));
                            }
                        }
                        assert(has_no_neighbor(self.nodes(), from_node, direction));
                    }
                    return None;
                },
            }
        }
        proof {
            crate::shape::lemma_climb_some(m, from_node, axis, steps + 1);
        }
        let (split_id, branch_id) = found;
        let split = self.arena.get(split_id).unwrap();
        let pos_opt = position(&split.children, branch_id);
        proof {
            assert(m[branch_id].parent == Some(split_id));
            assert(m[split_id].children.contains(branch_id));
        }
        let p = pos_opt.unwrap();
        proof {
            lemma_unique_index(m[split_id].children, branch_id, p as int);
        }
        let n_children = split.children.len();
        let target_pos = if is_forward {
            (p + 1) % n_children
        } else if p == 0 {
            n_children - 1
        } else {
            p - 1
        };
        let target_branch = split.children[target_pos];
        assert(m.contains_key(m[split_id].children[target_pos as int]));
        let t = if is_forward {
            self.leftmost_leaf(target_branch)
        } else {
            self.rightmost_leaf(target_branch)
        };
        proof {
            assert(climb(m, from_node, axis, steps + 1) == Some((split_id, branch_id)));
        }
        Some(t)
    }
}


impl Workspace {
    /// The leaves of the tree from left to right.
    pub closed spec fn leaf_order(&self) -> Seq<NodeId> {
        match self.root {
            None => Seq::empty(),
            Some(r) => dfs_leaves(self.nodes(), r, self.down@[r] + 1),
        }
    }

    /// Every node of the leaf order is a window leaf.
    pub proof fn lemma_leaf_order_windows(&self)
        requires
            self.wf(),
        ensures
            forall|j: int| 0 <= j < self.leaf_order().len() ==> is_window(self.nodes(), #[trigger] self.leaf_order()[j]),
    {
        if let Some(r) = self.root {
            crate::shape::lemma_dfs_windows(self.nodes(), r, self.down@[r] + 1);
        }
    }

    /// Append the leaves below `node_id`, left to right, to `out`.
    fn collect_leaves(&self, node_id: NodeId, out: &mut Vec<NodeId>)
        requires
            self.wf(),
            self.nodes().contains_key(node_id),
        ensures
            final(out)@ == old(out)@ + dfs_leaves(self.nodes(), node_id, self.down@[node_id] + 1),
        decreases self.down@[node_id],
    {
        let ghost m = self.nodes();
        let node = self.arena.get(node_id).unwrap();
        match node.data {
            NodeData::Window { .. } => {
                out.push(node_id);
                assert(dfs_leaves(m, node_id, self.down@[node_id] + 1) == seq![node_id]);
            },
            NodeData::Split { .. } => {
                let children = node.children.clone();
                let ghost out0 = out@;
                let ghost kk = self.down@[node_id];
                let mut i: usize = 0;
                while i < children.len()
                    invariant
                        self.wf(),
                        m == self.nodes(),
                        m.contains_key(node_id),
                        kk == self.down@[node_id],
                        children@ == m[node_id].children,
                        0 <= i <= children@.len(),
                        out@ == out0 + dfs_list(m, children@.subrange(0, i as int), kk),
                    decreases children@.len() - i,
                {
                    let c = children[i];
                    assert(m[node_id].children[i as int] == c);
                    assert(m.contains_key(c) && m[c].parent == Some(node_id));
                    self.collect_leaves(c, out);
                    proof {
                        crate::shape::lemma_dfs_stable(m, self.root, self.down@, self.up@, c, self.down@[c] + 1, kk);
                        assert(children@.subrange(0, i + 1) =~= children@.subrange(0, i as int).push(c));
                        crate::shape::lemma_dfs_list_push(m, children@.subrange(0, i as int), c, kk);
                    }
                    i = i + 1;
                }
                assert(children@.subrange(0, children@.len() as int) =~= children@);
                assert(dfs_leaves(m, node_id, kk + 1) == dfs_list(m, m[node_id].children, kk));
            },
        }
    }

    /// The leaves of the tree from left to right.
    fn cycle_leaves(&self) -> (r: Vec<NodeId>)
        requires
            self.wf(),
        ensures
            r@ == self.leaf_order(),
    {
        let root = match self.root {
            Some(r) => r,
            None => return Vec::new(),
        };
        let mut out = Vec::new();
        self.collect_leaves(root, &mut out);
        assert(out@ =~= self.leaf_order());
        out
    }

    /// The position of the focused leaf in `leaves`, or 0 when absent.
    fn focused_position(&self, leaves: &Vec<NodeId>) -> (r: Option<usize>)
        ensures
            match r {
                Some(i) => i < leaves@.len() && self.focused_node is Some && leaves@.contains(self.focused_node->0)
                    && leaves@[i as int] == self.focused_node->0 && i == first_index(
                    leaves@,
                    self.focused_node->0,
                ),
                None => self.focused_node is None || !leaves@.contains(self.focused_node->0),
            },
    {
        match self.focused_node {
            Some(f) => match position(leaves, f) {
                Some(i) => {
                    proof {
                        lemma_first_index(leaves@, f, i as int);
                    }
                    Some(i)
                },
                None => None,
            },
            None => None,
        }
    }

    /// Monocle focus movement: cycle through the leaves in order.
    fn focus_cycle(&mut self, direction: Direction)
        requires
            old(self).wf(),
        ensures
            final(self).wf(),
            Self::same_settings(final(self), old(self)),
            final(self).spec_root() == old(self).spec_root(),
            final(self).spec_pending() == old(self).spec_pending(),
            final(self).spec_next_id() == old(self).spec_next_id(),
            final(self).window_seq() == old(self).window_seq(),
            ({
                let leaves = old(self).leaf_order();
                if leaves.len() == 0 {
                    final(self).nodes() == old(self).nodes() && final(self).spec_focused() == old(self).spec_focused()
                } else {
                    let p = if old(self).spec_focused() is Some && leaves.contains(old(self).spec_focused()->0) {
                        first_index(leaves, old(self).spec_focused()->0)
                    } else {
                        0
                    };
                    let t = leaves[step_pos(p, leaves.len() as int, direction_is_forward(direction))];
                    final(self).spec_focused() == Some(t) && final(self).nodes() == refocus(
                        old(self).nodes(),
                        old(self).spec_focused(),
                        t,
                    )
                }
            }),
    {
        let ghost m0 = self.nodes();
        let ghost f0 = self.focused_node;
        let leaves = self.cycle_leaves();
        if leaves.len() == 0 {
            return ;
        }
        let pos = match self.focused_position(&leaves) {
            Some(p) => p,
            None => 0,
        };
        let target_pos = if direction.is_forward() {
            (pos + 1) % leaves.len()
        } else if pos == 0 {
            leaves.len() - 1
        } else {
            pos - 1
        };
        let t = leaves[target_pos];
        proof {
            self.lemma_leaf_order_windows();
            assert(is_window(m0, self.leaf_order()[target_pos as int]));
        }
        self.set_focused_node(t);
        proof {
            self.lemma_focus_finish(m0, f0, t);
            crate::shape::lemma_windows_same(m0, self.nodes(), self.spec_next_id() as nat);
        }
    }

    /// Move the focus along `direction`. In monocle the focus cycles
    /// through the leaves in order (forward for right/down), starting from
    /// the first leaf when the focus is not among them; otherwise it moves
    /// to the neighboring leaf in the tree. Nothing changes when there is no
    /// leaf or no neighbor.
    pub fn focus_neighbor(&mut self, direction: Direction)
        requires
            old(self).wf(),
        ensures
            final(self).wf(),
            focused_along(*old(self), *final(self), direction),
    {
        let ghost m0 = self.nodes();
        let ghost f0 = self.focused_node;
        if self.monocle {
            self.focus_cycle(direction);
            return ;
        }
        let from = match self.focused_node {
            Some(id) => id,
            None => return ,
        };
        let target = match self.find_neighbor(from, direction) {
            Some(id) => id,
            None => return ,
        };
        self.set_focused_node(target);
        proof {
            self.lemma_focus_finish(m0, f0, target);
            crate::shape::lemma_windows_same(m0, self.nodes(), self.spec_next_id() as nat);
            assert(!has_no_neighbor(m0, from, direction)) by {
                let k = choose|k: nat| #![trigger climb(m0, from, direction_axis(direction), k)]
                    climb(m0, from, direction_axis(direction), k) is Some;
            }
        }
    }
}


impl Workspace {
    /// Exchange the payloads of two distinct leaves and focus `b`.
    fn swap_leaf_data(&mut self, a: NodeId, b: NodeId)
        requires
            old(self).wf(),
            is_window(old(self).nodes(), a),
            is_window(old(self).nodes(), b),
        ensures
            final(self).wf(),
            final(self).nodes() == swap_data(old(self).nodes(), a, b),
            final(self).spec_focused() == Some(b),
            window_set(final(self).nodes()) == window_set(old(self).nodes()),
            final(self).root == old(self).root,
            final(self).pending_split == old(self).pending_split,
            final(self).spec_next_id() == old(self).spec_next_id(),
            Self::same_settings(final(self), old(self)),
    {
        let a_data = self.arena.get(a).unwrap().data;
        let b_data = self.arena.get(b).unwrap().data;
        self.arena.set_data(a, b_data);
        self.arena.set_data(b, a_data);
        self.focused_node = Some(b);
        proof {
            assert(self.nodes() =~= swap_data(old(self).nodes(), a, b));
            lemma_swap_data(old(self).nodes(), a, b);
            lemma_same_shape(old(self).nodes(), self.nodes(), self.root, self.down@, self.up@);
        }
    }

    /// Swap the leaves holding `dragged_id` and `target_id` (the lowest-
    /// numbered ones) and focus the target position. Returns `false`, and
    /// changes nothing, when either window is missing or both are the same leaf.
    pub fn swap_windows_by_id(&mut self, dragged_id: WindowId, target_id: WindowId) -> (r: bool)
        requires
            old(self).wf(),
        ensures
            final(self).wf(),
            r == pair_found(old(self).nodes(), dragged_id, target_id),
            swapped_by_id(*old(self), *final(self), dragged_id, target_id),
    {
        let ghost m0 = self.nodes();
        let dragged_node = match self.find_window(dragged_id) {
            Some(id) => id,
            None => {
                assert forall|d: NodeId| !is_first_holder(m0, dragged_id, d) by {}
                return false;
            },
        };
        let target_node = match self.find_window(target_id) {
            Some(id) => id,
            None => {
                assert forall|t: NodeId| !is_first_holder(m0, target_id, t) by {}
                return false;
            },
        };
        proof {
            assert forall|d: NodeId| is_first_holder(m0, dragged_id, d) implies d == dragged_node by {
                if d < dragged_node {
                } else if dragged_node < d {
                    assert(holds(m0, dragged_node, dragged_id));
                }
            }
            assert forall|t: NodeId| is_first_holder(m0, target_id, t) implies t == target_node by {
                if t < target_node {
                } else if target_node < t {
                    assert(holds(m0, target_node, target_id));
                }
            }
            assert(is_first_holder(m0, dragged_id, dragged_node));
            assert(is_first_holder(m0, target_id, target_node));
        }
        if dragged_node == target_node {
            return false;
        }
        self.swap_leaf_data(dragged_node, target_node);
        true
    }

    /// Swap the focused window with its neighbor along `direction`. In
    /// monocle only the two windows change places (the focus mark stays at
    /// the focused position, which now shows the neighbor's window); the
    /// neighbor is the next or previous leaf in order. Otherwise the two
    /// leaves exchange payloads and the focus follows to the neighbor's
    /// position. Nothing changes when there is no neighbor.
    pub fn swap_window(&mut self, direction: Direction)
        requires
            old(self).wf(),
        ensures
            final(self).wf(),
            swapped_along(*old(self), *final(self), direction),
    {
        let ghost m0 = self.nodes();
        if self.monocle {
            self.swap_cycle(direction);
            return ;
        }
        let focused = match self.focused_node {
            Some(id) => id,
            None => return ,
        };
        let target = match self.find_neighbor(focused, direction) {
            Some(id) => id,
            None => return ,
        };
        self.swap_leaf_data(focused, target);
        proof {
            assert(!has_no_neighbor(m0, focused, direction)) by {
                let k = choose|k: nat| #![trigger climb(m0, focused, direction_axis(direction), k)]
                    climb(m0, focused, direction_axis(direction), k) is Some;
            }
        }
    }

    /// Monocle swap: exchange the focused window with the next or previous
    /// one in leaf order.
    #[verifier::rlimit(60)]
    fn swap_cycle(&mut self, direction: Direction)
        requires
            old(self).wf(),
        ensures
            final(self).wf(),
            Self::same_settings(final(self), old(self)),
            final(self).spec_root() == old(self).spec_root(),
            final(self).spec_pending() == old(self).spec_pending(),
            final(self).spec_next_id() == old(self).spec_next_id(),
            window_set(final(self).nodes()) == window_set(old(self).nodes()),
            ({
                let leaves = old(self).leaf_order();
                let f = old(self).spec_focused();
                if leaves.len() < 2 || f is None || !leaves.contains(f->0) {
                    final(self).nodes() == old(self).nodes() && final(self).spec_focused() == f
                } else {
                    let p = first_index(leaves, f->0);
                    let t = leaves[step_pos(p, leaves.len() as int, direction_is_forward(direction))];
                    final(self).spec_focused() == f && final(self).nodes() == swap_ids(old(self).nodes(), f->0, t)
                }
            }),
    {
        let ghost m0 = self.nodes();
        let leaves = self.cycle_leaves();
        if leaves.len() < 2 {
            return ;
        }
        let pos = match self.focused_position(&leaves) {
            Some(p) => p,
            None => return ,
        };
        let target_pos = if direction.is_forward() {
            (pos + 1) % leaves.len()
        } else if pos == 0 {
            leaves.len() - 1
        } else {
            pos - 1
        };
        let focused = leaves[pos];
        let target = leaves[target_pos];
        assert(target_pos as int == step_pos(pos as int, leaves@.len() as int, direction_is_forward(direction)));
        assert(focused == self.focused_node->0);
        proof {
            self.lemma_leaf_order_windows();
            assert(is_window(m0, self.leaf_order()[target_pos as int]));
            assert(is_window(m0, self.leaf_order()[pos as int]));
        }
        let focused_wid = match self.arena.get(focused).unwrap().data {
            NodeData::Window { window_id, .. } => window_id,
            NodeData::Split { .. } => return ,
        };
        let (target_wid, target_flag) = match self.arena.get(target).unwrap().data {
            NodeData::Window { window_id, is_focused } => (window_id, is_focused),
            NodeData::Split { .. } => return ,
        };
        let focused_flag = match self.arena.get(focused).unwrap().data {
            NodeData::Window { is_focused, .. } => is_focused,
            NodeData::Split { .. } => return ,
        };
        self.arena.set_data(focused, NodeData::Window { window_id: target_wid, is_focused: focused_flag });
        self.arena.set_data(target, NodeData::Window { window_id: focused_wid, is_focused: target_flag });
        proof {
            assert(self.nodes() =~= swap_ids(m0, focused, target));
            lemma_swap_ids(m0, focused, target);
            lemma_same_shape(m0, self.nodes(), self.root, self.down@, self.up@);
            assert(is_window(self.nodes(), focused));
        }
    }
}

impl Workspace {
    // -----------------------------------------------------------------------
    // Monitor
    // -----------------------------------------------------------------------

    /// Move the workspace to a monitor at `origin`.
    pub fn set_monitor_origin(&mut self, origin: (i32, i32))
        requires
            old(self).wf(),
        ensures
            final(self).wf(),
            final(self).spec_monitor_origin() == origin,
            final(self).spec_monitor_size() == old(self).spec_monitor_size(),
            final(self).spec_reserved() == old(self).spec_reserved(),
            final(self).spec_name() == old(self).spec_name(),
            final(self).spec_monitor_id() == old(self).spec_monitor_id(),
            final(self).spec_monocle() == old(self).spec_monocle(),
            final(self).nodes() == old(self).nodes(),
            final(self).spec_root() == old(self).spec_root(),
            final(self).spec_focused() == old(self).spec_focused(),
            final(self).spec_pending() == old(self).spec_pending(),
            final(self).spec_next_id() == old(self).spec_next_id(),
    {
        self.monitor_origin = origin;
    }

    pub fn monitor_origin(&self) -> (r: (i32, i32))
        ensures
            r == self.spec_monitor_origin(),
    {
        self.monitor_origin
    }

    pub fn monitor_size(&self) -> (r: (u32, u32))
        ensures
            r == self.spec_monitor_size(),
    {
        self.monitor_size
    }

    /// Update monitor geometry (e.g. after a resolution change).
    pub fn update_monitor_geometry(&mut self, origin: (i32, i32), size: (u32, u32))
        requires
            old(self).wf(),
        ensures
            final(self).wf(),
            final(self).spec_monitor_origin() == origin,
            final(self).spec_monitor_size() == size,
            final(self).spec_reserved() == old(self).spec_reserved(),
            final(self).spec_name() == old(self).spec_name(),
            final(self).spec_monitor_id() == old(self).spec_monitor_id(),
            final(self).spec_monocle() == old(self).spec_monocle(),
            final(self).nodes() == old(self).nodes(),
            final(self).spec_root() == old(self).spec_root(),
            final(self).spec_focused() == old(self).spec_focused(),
            final(self).spec_pending() == old(self).spec_pending(),
            final(self).spec_next_id() == old(self).spec_next_id(),
    {
        self.monitor_origin = origin;
        self.monitor_size = size;
    }

    /// Reserve a region of the monitor (global coordinates) that windows must
    /// avoid; `None` clears the reservation.
    pub fn set_reserved_rect(&mut self, global: Option<Rect>)
        requires
            old(self).wf(),
        ensures
            final(self).wf(),
            final(self).spec_reserved() == global,
            final(self).spec_monitor_origin() == old(self).spec_monitor_origin(),
            final(self).spec_monitor_size() == old(self).spec_monitor_size(),
            final(self).spec_name() == old(self).spec_name(),
            final(self).spec_monitor_id() == old(self).spec_monitor_id(),
            final(self).spec_monocle() == old(self).spec_monocle(),
            final(self).nodes() == old(self).nodes(),
            final(self).spec_root() == old(self).spec_root(),
            final(self).spec_focused() == old(self).spec_focused(),
            final(self).spec_pending() == old(self).spec_pending(),
            final(self).spec_next_id() == old(self).spec_next_id(),
    {
        self.reserved = global;
    }

    pub fn reserved_rect(&self) -> (r: Option<Rect>)
        ensures
            r == self.spec_reserved(),
    {
        self.reserved
    }

    /// The tiling area: `monitor` (monitor-local) minus the reserved strip
    /// moved into monitor-local coordinates.
    pub fn usable_rect(&self, monitor: Rect) -> (r: Rect)
        requires
            rect_small(monitor),
            self.spec_reserved() matches Some(res) ==> rect_small(res),
        ensures
            r == match self.spec_reserved() {
                None => monitor,
                Some(res) => subtract_strip_spec(
                    monitor,
                    Rect {
                        x: (res.x - self.spec_monitor_origin().0) as i64,
                        y: (res.y - self.spec_monitor_origin().1) as i64,
                        width: res.width,
                        height: res.height,
                    },
                ),
            },
    {
        match self.reserved {
            None => monitor,
            Some(res) => {
                let local = Rect::new(
                    res.x - self.monitor_origin.0 as i64,
                    res.y - self.monitor_origin.1 as i64,
                    res.width,
                    res.height,
                );
                subtract_strip(monitor, local)
            },
        }
    }
}

/// Adding a window and then removing it (one occurrence of it) leaves the
/// workspace holding the same windows, counted with multiplicity.
pub proof fn law_add_then_remove_restores_windows(before: Workspace, added: Workspace, removed: Workspace, w: WindowId)
    requires
        added.window_seq() == before.window_seq().push(w),
        exists|p: int|
            0 <= p < added.window_seq().len() && added.window_seq()[p] == w && removed.window_seq()
                == #[trigger] added.window_seq().remove(p),
    ensures
        removed.window_seq().to_multiset() == before.window_seq().to_multiset(),
{
    let s0 = before.window_seq();
    let s1 = added.window_seq();
    let p = choose|p: int| 0 <= p < s1.len() && s1[p] == w && removed.window_seq() == #[trigger] s1.remove(p);
    broadcast use vstd::multiset::group_multiset_properties;
    s0.to_multiset_ensures();
    s1.to_multiset_ensures();
    s1.remove(p).to_multiset_ensures();
    assert(s1.to_multiset() == s0.to_multiset().insert(w));
    assert(s1.remove(p).to_multiset() == s1.to_multiset().remove(s1[p]));
    assert(s0.to_multiset().insert(w).remove(w) =~= s0.to_multiset());
}

/// A window just added is held by the leaf `add_window` returned, so the
/// workspace holds it.
pub proof fn law_added_window_is_held(added: Workspace, leaf: NodeId, w: WindowId)
    requires
        holds(added.nodes(), leaf, w),
    ensures
        window_set(added.nodes()).contains(w),
{
}

/// Toggling monocle twice restores the layout mode.
pub proof fn law_toggle_monocle_twice(a: Workspace, b: Workspace, c: Workspace)
    requires
        b.spec_monocle() == !a.spec_monocle(),
        c.spec_monocle() == !b.spec_monocle(),
    ensures
        c.spec_monocle() == a.spec_monocle(),
{
}


proof fn lemma_seq_held(m: Map<NodeId, NodeView>, k: nat, x: WindowId)
    requires
        windows_below(m, k).contains(x),
    ensures
        exists|id: NodeId| holds(m, id, x),
    decreases k,
{
    if k > 0 {
        let id = (k - 1) as NodeId;
        let prev = windows_below(m, (k - 1) as nat);
        if prev.contains(x) {
            lemma_seq_held(m, (k - 1) as nat, x);
        } else {
            if is_window(m, id) {
                let j = choose|j: int| 0 <= j < prev.push(window_of(m, id)).len() && prev.push(window_of(m, id))[j] == x;
                if j < prev.len() {
                    assert(prev.push(window_of(m, id))[j] == prev[j]);
                }
                assert(holds(m, id, x));
            }
        }
    }
}

/// A workspace holds a window exactly when its window sequence lists it.
pub proof fn lemma_has_window_seq(ws: Workspace, x: WindowId)
    requires
        ws.wf(),
    ensures
        window_set(ws.nodes()).contains(x) <==> ws.window_seq().contains(x),
{
    let m = ws.nodes();
    if ws.window_seq().contains(x) {
        lemma_seq_held(m, ws.spec_next_id() as nat, x);
    }
    if window_set(m).contains(x) {
        let id = choose|id: NodeId| holds(m, id, x);
        assert(m.contains_key(id));
        assert(id < ws.spec_next_id());
        lemma_windows_index(m, id as nat, ws.spec_next_id() as nat);
        let i = windows_below(m, id as nat).len() as int;
        assert(ws.window_seq()[i] == x);
    }
}

/// What moving the focus along `direction` does (see
/// `Workspace::focus_neighbor`): the frame and the windows stay; in monocle
/// the focus steps to the next or previous leaf in order, otherwise to the
/// neighbouring leaf in the tree; nothing changes without one.
pub open spec fn focused_along(before: Workspace, after: Workspace, direction: Direction) -> bool {
    &&& Workspace::same_settings(&after, &before)
    &&& after.spec_root() == before.spec_root()
    &&& after.spec_pending() == before.spec_pending()
    &&& after.spec_next_id() == before.spec_next_id()
    &&& after.window_seq() == before.window_seq()
    &&& before.spec_monocle() ==> {
        let leaves = before.leaf_order();
        if leaves.len() == 0 {
            after.nodes() == before.nodes() && after.spec_focused() == before.spec_focused()
        } else {
            let p = if before.spec_focused() is Some && leaves.contains(before.spec_focused()->0) {
                first_index(leaves, before.spec_focused()->0)
            } else {
                0
            };
            let t = leaves[step_pos(p, leaves.len() as int, direction_is_forward(direction))];
            after.spec_focused() == Some(t) && after.nodes() == refocus(
                before.nodes(),
                before.spec_focused(),
                t,
            )
        }
    }
    &&& !before.spec_monocle() ==> match before.spec_focused() {
        None => after.nodes() == before.nodes() && after.spec_focused() is None,
        Some(f) => if has_no_neighbor(before.nodes(), f, direction) {
            after.nodes() == before.nodes() && after.spec_focused() == Some(f)
        } else {
            after.spec_focused() is Some && is_neighbor(
                before.nodes(),
                f,
                direction,
                after.spec_focused()->0,
            ) && after.nodes() == refocus(
                before.nodes(),
                before.spec_focused(),
                after.spec_focused()->0,
            )
        }
    }
}

/// What swapping the focused window along `direction` does (see
/// `Workspace::swap_window`): the frame and the set of windows stay; in
/// monocle the focused window changes places with the next or previous one
/// in order, otherwise with its neighbouring leaf, the focus following it;
/// nothing changes without one.
pub open spec fn swapped_along(before: Workspace, after: Workspace, direction: Direction) -> bool {
    &&& Workspace::same_settings(&after, &before)
    &&& after.spec_root() == before.spec_root()
    &&& after.spec_pending() == before.spec_pending()
    &&& after.spec_next_id() == before.spec_next_id()
    &&& window_set(after.nodes()) == window_set(before.nodes())
    &&& before.spec_monocle() ==> {
        let leaves = before.leaf_order();
        let f = before.spec_focused();
        if leaves.len() < 2 || f is None || !leaves.contains(f->0) {
            after.nodes() == before.nodes() && after.spec_focused() == f
        } else {
            let p = first_index(leaves, f->0);
            let t = leaves[step_pos(p, leaves.len() as int, direction_is_forward(direction))];
            after.spec_focused() == f && after.nodes() == swap_ids(before.nodes(), f->0, t)
        }
    }
    &&& !before.spec_monocle() ==> match before.spec_focused() {
        None => after.nodes() == before.nodes() && after.spec_focused() is None,
        Some(f) => if has_no_neighbor(before.nodes(), f, direction) {
            after.nodes() == before.nodes() && after.spec_focused() == Some(f)
        } else {
            after.spec_focused() is Some && is_neighbor(
                before.nodes(),
                f,
                direction,
                after.spec_focused()->0,
            ) && after.nodes() == swap_data(before.nodes(), f, after.spec_focused()->0)
        }
    }
}

/// Distinct leaves are the first holders of `dragged` and of `target`.
pub open spec fn pair_found(m: Map<NodeId, NodeView>, dragged: WindowId, target: WindowId) -> bool {
    exists|d: NodeId, t: NodeId| is_first_holder(m, dragged, d) && is_first_holder(m, target, t) && d != t
}

/// What swapping windows `dragged` and `target` by id does (see
/// `Workspace::swap_windows_by_id`): the frame and the set of windows stay;
/// when distinct first holders of both exist they exchange payloads and the
/// focus goes to the target's position, otherwise nothing changes.
pub open spec fn swapped_by_id(before: Workspace, after: Workspace, dragged: WindowId, target: WindowId) -> bool {
    &&& Workspace::same_settings(&after, &before)
    &&& after.spec_root() == before.spec_root()
    &&& after.spec_pending() == before.spec_pending()
    &&& after.spec_next_id() == before.spec_next_id()
    &&& window_set(after.nodes()) == window_set(before.nodes())
    &&& !pair_found(before.nodes(), dragged, target) ==> after.nodes() == before.nodes() && after.spec_focused()
        == before.spec_focused()
    &&& forall|d: NodeId, t: NodeId|
        is_first_holder(before.nodes(), dragged, d) && is_first_holder(before.nodes(), target, t) && d != t
            ==> after.nodes() == swap_data(before.nodes(), d, t) && after.spec_focused() == Some(t)
}


/// A window that was not in the workspace and was added once (its window
/// sequence grew by it) is found at the leaf that holds it: no lower leaf
/// holds it, so `find_window` returns that leaf.
pub proof fn law_added_window_found(before: Workspace, added: Workspace, leaf: NodeId, w: WindowId)
    requires
        before.wf(),
        added.wf(),
        !window_set(before.nodes()).contains(w),
        added.window_seq() == before.window_seq().push(w),
        holds(added.nodes(), leaf, w),
    ensures
        is_first_holder(added.nodes(), w, leaf),
{
    let m = added.nodes();
    let next = added.spec_next_id() as nat;
    lemma_has_window_seq(before, w);
    assert(m.contains_key(leaf));
    assert(leaf < added.spec_next_id());
    assert forall|j: NodeId| j < leaf implies !holds(m, j, w) by {
        if holds(m, j, w) {
            lemma_windows_index(m, j as nat, leaf as nat);
            lemma_windows_index(m, j as nat, next);
            lemma_windows_index(m, leaf as nat, next);
            let p1 = windows_below(m, j as nat).len() as int;
            let p2 = windows_below(m, leaf as nat).len() as int;
            assert(added.window_seq()[p1] == w);
            assert(added.window_seq()[p2] == w);
            assert(p1 < p2);
            assert(p1 < before.window_seq().len());
            assert(before.window_seq()[p1] == w);
            assert(before.window_seq().contains(w));
        }
    }
}


/// Removing a window the workspace held once (one occurrence taken out of
/// its window sequence) leaves no leaf holding it.
pub proof fn law_removed_window_gone(before: Workspace, removed: Workspace, w: WindowId)
    requires
        removed.wf(),
        forall|i: int, j: int|
            0 <= i < before.window_seq().len() && 0 <= j < before.window_seq().len() && before.window_seq()[i] == w
                && before.window_seq()[j] == w ==> i == j,
        exists|p: int|
            0 <= p < before.window_seq().len() && before.window_seq()[p] == w && removed.window_seq()
                == #[trigger] before.window_seq().remove(p),
    ensures
        !window_set(removed.nodes()).contains(w),
{
    let s0 = before.window_seq();
    let p = choose|p: int| 0 <= p < s0.len() && s0[p] == w && removed.window_seq() == #[trigger] s0.remove(p);
    lemma_has_window_seq(removed, w);
    if removed.window_seq().contains(w) {
        let i = choose|i: int| 0 <= i < removed.window_seq().len() && removed.window_seq()[i] == w;
        if i < p {
            assert(s0[i] == w);
        } else {
            assert(s0[i + 1] == w);
        }
    }
}


proof fn lemma_no_nodes_no_windows(m: Map<NodeId, NodeView>, k: nat)
    requires
        forall|n: NodeId| !#[trigger] m.contains_key(n),
    ensures
        windows_below(m, k).len() == 0,
    decreases k,
{
    if k > 0 {
        lemma_no_nodes_no_windows(m, (k - 1) as nat);
        assert(!m.contains_key((k - 1) as NodeId));
    }
}

/// A workspace has a focused window exactly when it holds some window:
/// removing the last window leaves no focus, and while windows remain one
/// of them is focused.
pub proof fn law_focus_iff_windows(ws: Workspace)
    requires
        ws.wf(),
    ensures
        ws.spec_focused() is Some <==> ws.window_seq().len() > 0,
{
    let m = ws.nodes();
    match ws.spec_focused() {
        Some(f) => {
            assert(m.contains_key(f));
            assert(f < ws.spec_next_id()) by {
                assert(ws.arena.ids_wf());
            }
            lemma_windows_index(m, f as nat, ws.spec_next_id() as nat);
        },
        None => {
            lemma_no_nodes_no_windows(m, ws.spec_next_id() as nat);
        },
    }
}

} // verus!

//! Arena-based tree storage for the tiling layout.
//!
//! Every node lives in a flat map keyed by a `u64` `NodeId`; parent/child
//! links are ids, not pointers. A node is either a window leaf or a split
//! that divides its space equally among its children.
use std::collections::HashMap;
use vstd::prelude::*;

verus! {

broadcast use vstd::std_specs::hash::group_hash_axioms;

/// Unique identifier for a node in the arena tree.
pub type NodeId = u64;

/// Unique identifier for a window (CGWindowID).
pub type WindowId = u64;

/// The axis along which a split divides its children: `Horizontal` stacks
/// them top to bottom, `Vertical` places them side by side.
#[derive(Debug, Clone, Copy, PartialEq, Eq, Structural)]
pub enum SplitDirection {
    Horizontal,
    Vertical,
}

/// A cardinal direction for focus and swap navigation.
#[derive(Debug, Clone, Copy, PartialEq, Eq, Structural)]
pub enum Direction {
    Left,
    Right,
    Up,
    Down,
}

/// The split axis that a direction moves along.
pub open spec fn direction_axis(d: Direction) -> SplitDirection {
    match d {
        Direction::Left | Direction::Right => SplitDirection::Vertical,
        Direction::Up | Direction::Down => SplitDirection::Horizontal,
    }
}

/// Whether a direction moves towards later children (right / down).
pub open spec fn direction_is_forward(d: Direction) -> bool {
    d == Direction::Right || d == Direction::Down
}

impl Direction {
    /// The split axis this direction navigates along.
    pub fn axis(&self) -> (r: SplitDirection)
        ensures
            r == direction_axis(*self),
    {
        match self {
            Direction::Left | Direction::Right => SplitDirection::Vertical,
            Direction::Up | Direction::Down => SplitDirection::Horizontal,
        }
    }

    /// True for `Right` and `Down`.
    pub fn is_forward(&self) -> (r: bool)
        ensures
            r == direction_is_forward(*self),
    {
        match self {
            Direction::Right | Direction::Down => true,
            _ => false,
        }
    }
}

/// The payload of a node. Splits share their space equally among their
/// children, so they carry only the axis.
#[derive(Debug, Clone, Copy, PartialEq, Eq, Structural)]
pub enum NodeData {
    Window {
        window_id: WindowId,
        /// Whether this window currently has keyboard focus.
        is_focused: bool,
    },
    Split {
        direction: SplitDirection,
    },
}

/// A single node in the arena tree.
#[derive(Debug)]
pub struct Node {
    pub id: NodeId,
    pub parent: Option<NodeId>,
    pub children: Vec<NodeId>,
    pub data: NodeData,
}

/// The mathematical value of a node: its links with children as a sequence.
pub struct NodeView {
    pub id: NodeId,
    pub parent: Option<NodeId>,
    pub children: Seq<NodeId>,
    pub data: NodeData,
}

impl View for Node {
    type V = NodeView;

    open spec fn view(&self) -> NodeView {
        NodeView { id: self.id, parent: self.parent, children: self.children@, data: self.data }
    }
}

impl Node {
    /// A copy of this node.
    pub fn duplicate(&self) -> (r: Node)
        ensures
            r@ == self@,
    {
        Node { id: self.id, parent: self.parent, children: self.children.clone(), data: self.data }
    }
}

/// Flat storage for all nodes, owned by a workspace.
#[derive(Debug)]
pub struct Arena {
    nodes: HashMap<NodeId, Node>,
    next_id: NodeId,
}

/// `m` without node `id`, and without `id` in its parent's child list.
pub open spec fn detach(m: Map<NodeId, NodeView>, id: NodeId) -> Map<NodeId, NodeView> {
    match m[id].parent {
        Some(p) => if p != id && m.contains_key(p) {
            m.remove(id).insert(p, NodeView { children: m[p].children.remove_value(id), ..m[p] })
        } else {
            m.remove(id)
        },
        None => m.remove(id),
    }
}

/// The first position of `x` in `v`, if any.
pub fn first_position(v: &Vec<NodeId>, x: NodeId) -> (r: Option<usize>)
    ensures
        match r {
            Some(i) => i < v@.len() && v@[i as int] == x && v@.index_of_first(x) == Some(i as int),
            None => !v@.contains(x) && v@.index_of_first(x) is None,
        },
{
    proof {
        v@.index_of_first_ensures(x);
    }
    let mut i: usize = 0;
    while i < v.len()
        invariant
            i <= v@.len(),
            forall|j: int| 0 <= j < i ==> v@[j] != x,
            match v@.index_of_first(x) {
                Some(index) => {
                    &&& v@.contains(x)
                    &&& 0 <= index < v@.len()
                    &&& v@[index] == x
                    &&& forall|j: int| 0 <= j < index < v@.len() ==> v@[j] != x
                },
                None => !v@.contains(x),
            },
        decreases v@.len() - i,
    {
        if v[i] == x {
            return Some(i);
        }
        i = i + 1;
    }
    None
}

impl Arena {
    /// The nodes of the arena, by id.
    pub closed spec fn spec_nodes(&self) -> Map<NodeId, NodeView> {
        self.nodes@.map_values(|n: Node| n@)
    }

    /// The id that the next allocation hands out.
    pub closed spec fn spec_next_id(&self) -> NodeId {
        self.next_id
    }

    /// Every stored node records its own key, and every key is below the next id.
    pub open spec fn ids_wf(&self) -> bool {
        forall|k: NodeId|
            #[trigger] self.spec_nodes().contains_key(k) ==> self.spec_nodes()[k].id == k && k
                < self.spec_next_id()
    }

    /// An empty arena whose first allocation gets id 0.
    pub fn new() -> (r: Arena)
        ensures
            r.spec_nodes() == Map::<NodeId, NodeView>::empty(),
            r.spec_next_id() == 0,
            r.ids_wf(),
    {
        let r = Arena { nodes: HashMap::new(), next_id: 0 };
        assert(r.spec_nodes() =~= Map::<NodeId, NodeView>::empty());
        r
    }

    /// The id the next allocation will hand out.
    pub fn next_id(&self) -> (r: NodeId)
        ensures
            r == self.spec_next_id(),
    {
        self.next_id
    }

    /// Allocate a new parentless, childless node holding `data`.
    pub fn allocate(&mut self, data: NodeData) -> (id: NodeId)
        requires
            old(self).spec_next_id() < u64::MAX,
            old(self).ids_wf(),
        ensures
            id == old(self).spec_next_id(),
            final(self).spec_next_id() == id + 1,
            final(self).spec_nodes() == old(self).spec_nodes().insert(
                id,
                NodeView { id, parent: None, children: Seq::empty(), data },
            ),
            !old(self).spec_nodes().contains_key(id),
            final(self).ids_wf(),
    {
        let id = self.next_id;
        let node = Node { id, parent: None, children: Vec::new(), data };
        self.nodes.insert(id, node);
        self.next_id = id + 1;
        assert(final(self).spec_nodes() =~= old(self).spec_nodes().insert(
            id,
            NodeView { id, parent: None, children: Seq::empty(), data },
        ));
        id
    }

    /// The node with id `id`, if any.
    pub fn get(&self, id: NodeId) -> (r: Option<&Node>)
        ensures
            match r {
                Some(n) => self.spec_nodes().contains_key(id) && n@ == self.spec_nodes()[id],
                None => !self.spec_nodes().contains_key(id),
            },
    {
        self.nodes.get(&id)
    }

    /// Whether `id` names a stored node.
    pub fn contains(&self, id: NodeId) -> (r: bool)
        ensures
            r == self.spec_nodes().contains_key(id),
    {
        self.nodes.contains_key(&id)
    }

    /// Replace the stored node `id` by `node` (a node with that id must exist).
    pub fn put(&mut self, node: Node)
        requires
            old(self).spec_nodes().contains_key(node.id),
            old(self).ids_wf(),
        ensures
            final(self).spec_nodes() == old(self).spec_nodes().insert(node.id, node@),
            final(self).spec_next_id() == old(self).spec_next_id(),
            final(self).ids_wf(),
    {
        let ghost id = node.id;
        let ghost v = node@;
        self.nodes.insert(node.id, node);
        assert(final(self).spec_nodes() =~= old(self).spec_nodes().insert(id, v));
    }

    /// Take the node `id` out of the arena (without touching any link).
    pub fn take(&mut self, id: NodeId) -> (r: Option<Node>)
        requires
            old(self).ids_wf(),
        ensures
            final(self).spec_nodes() == old(self).spec_nodes().remove(id),
            final(self).spec_next_id() == old(self).spec_next_id(),
            final(self).ids_wf(),
            match r {
                Some(n) => old(self).spec_nodes().contains_key(id) && n@ == old(self).spec_nodes()[id],
                None => !old(self).spec_nodes().contains_key(id),
            },
    {
        let r = self.nodes.remove(&id);
        assert(final(self).spec_nodes() =~= old(self).spec_nodes().remove(id));
        r
    }

    /// Set the parent link of node `id`.
    pub fn set_parent(&mut self, id: NodeId, parent: Option<NodeId>)
        requires
            old(self).spec_nodes().contains_key(id),
            old(self).ids_wf(),
        ensures
            final(self).spec_nodes() == old(self).spec_nodes().insert(
                id,
                NodeView { parent, ..old(self).spec_nodes()[id] },
            ),
            final(self).spec_next_id() == old(self).spec_next_id(),
            final(self).ids_wf(),
    {
        let ghost before = self.spec_nodes();
        let mut node = self.nodes.remove(&id).unwrap();
        node.parent = parent;
        self.nodes.insert(id, node);
        assert(self.spec_nodes() =~= before.insert(
            id,
            NodeView { parent, ..before[id] },
        ));
    }

    /// Replace the child list of node `id`.
    pub fn set_children(&mut self, id: NodeId, children: Vec<NodeId>)
        requires
            old(self).spec_nodes().contains_key(id),
            old(self).ids_wf(),
        ensures
            final(self).spec_nodes() == old(self).spec_nodes().insert(
                id,
                NodeView { children: children@, ..old(self).spec_nodes()[id] },
            ),
            final(self).spec_next_id() == old(self).spec_next_id(),
            final(self).ids_wf(),
    {
        let ghost cv = children@;
        let ghost before = self.spec_nodes();
        let mut node = self.nodes.remove(&id).unwrap();
        node.children = children;
        self.nodes.insert(id, node);
        assert(self.spec_nodes() =~= before.insert(
            id,
            NodeView { children: cv, ..before[id] },
        ));
    }

    /// Replace the payload of node `id`.
    pub fn set_data(&mut self, id: NodeId, data: NodeData)
        requires
            old(self).spec_nodes().contains_key(id),
            old(self).ids_wf(),
        ensures
            final(self).spec_nodes() == old(self).spec_nodes().insert(
                id,
                NodeView { data, ..old(self).spec_nodes()[id] },
            ),
            final(self).spec_next_id() == old(self).spec_next_id(),
            final(self).ids_wf(),
    {
        let ghost before = self.spec_nodes();
        let mut node = self.nodes.remove(&id).unwrap();
        node.data = data;
        self.nodes.insert(id, node);
        assert(self.spec_nodes() =~= before.insert(
            id,
            NodeView { data, ..before[id] },
        ));
    }

    /// The stored nodes form a finite map.
    pub proof fn lemma_finite(&self)
        ensures
            self.spec_nodes().dom().finite(),
    {
        assert(self.spec_nodes().dom() =~= self.nodes@.dom());
        assert(self.nodes@.dom().finite());
    }

    /// Remove node `id` and all its descendants, and drop `id` from its
    /// parent's child list. Returns the removed node.
    pub fn remove(&mut self, id: NodeId) -> (r: Option<Node>)
        requires
            old(self).ids_wf(),
        ensures
            final(self).ids_wf(),
            final(self).spec_next_id() == old(self).spec_next_id(),
            match r {
                Some(n) => old(self).spec_nodes().contains_key(id) && n@ == old(self).spec_nodes()[id],
                None => !old(self).spec_nodes().contains_key(id) && final(self).spec_nodes() == old(
                    self,
                ).spec_nodes(),
            },
            old(self).spec_nodes().contains_key(id) && old(self).spec_nodes()[id].children.len() == 0
                ==> final(self).spec_nodes() == detach(old(self).spec_nodes(), id),
            old(self).spec_nodes().contains_key(id) ==> forall|k: NodeId|
                #[trigger] final(self).spec_nodes().contains_key(k) ==> detach(old(self).spec_nodes(), id).contains_key(k)
                    && final(self).spec_nodes()[k] == detach(old(self).spec_nodes(), id)[k],
            old(self).spec_nodes().contains_key(id) ==> ({
                let base = detach(old(self).spec_nodes(), id).insert(id, old(self).spec_nodes()[id]);
                forall|k: NodeId, j: int|
                    #![trigger base[k].children[j]]
                    base.contains_key(k) && !final(self).spec_nodes().contains_key(k) && 0 <= j
                        < base[k].children.len() ==> !final(self).spec_nodes().contains_key(base[k].children[j])
            }),
    {
        let ghost m0 = self.spec_nodes();
        let node = match self.nodes.remove(&id) {
            Some(n) => n,
            None => {
                assert(self.spec_nodes() =~= m0);
                return None;
            },
        };
        if let Some(p) = node.parent {
            if let Some(mut pn) = self.nodes.remove(&p) {
                if let Some(i) = first_position(&pn.children, id) {
                    pn.children.remove(i);
                }
                self.nodes.insert(p, pn);
            }
        }
        let ghost dm = detach(m0, id);
        let ghost base = dm.insert(id, m0[id]);
        proof {
            assert(self.spec_nodes() =~= dm);
        }
        let mut stack: Vec<NodeId> = node.children.clone();
        loop
            invariant
                self.ids_wf(),
                self.spec_next_id() == old(self).spec_next_id(),
                m0 == old(self).spec_nodes(),
                dm == detach(m0, id),
                base == dm.insert(id, m0[id]),
                m0.contains_key(id),
                !self.spec_nodes().contains_key(id),
                m0[id].children.len() == 0 ==> stack@.len() == 0 && self.spec_nodes() == dm,
                forall|k: NodeId|
                    #[trigger] self.spec_nodes().contains_key(k) ==> dm.contains_key(k) && self.spec_nodes()[k]
                        == dm[k],
                forall|k: NodeId, j: int|
                    #![trigger base[k].children[j]]
                    base.contains_key(k) && !self.spec_nodes().contains_key(k) && 0 <= j < base[k].children.len()
                        ==> !self.spec_nodes().contains_key(base[k].children[j]) || stack@.contains(
                        base[k].children[j],
                    ),
            ensures
                stack@.len() == 0,
            decreases self.spec_nodes().len(), stack@.len(),
        {
            let ghost before = self.spec_nodes();
            let ghost stack0 = stack@;
            match stack.pop() {
                None => {
                    break;
                },
                Some(c) => {
                    assert(stack0.len() > 0);
                    match self.nodes.remove(&c) {
                        Some(cn) => {
                            let mut j: usize = 0;
                            while j < cn.children.len()
                                invariant
                                    stack0.len() > 0,
                                    j <= cn.children@.len(),
                                    stack@ == stack0.drop_last() + cn.children@.subrange(0, j as int),
                                decreases cn.children@.len() - j,
                            {
                                stack.push(cn.children[j]);
                                j = j + 1;
                                assert(stack@ =~= stack0.drop_last() + cn.children@.subrange(0, j as int));
                            }
                            proof {
                                assert(cn.children@.subrange(0, cn.children@.len() as int) =~= cn.children@);
                                self.lemma_finite();
                                assert(self.spec_nodes() =~= before.remove(c));
                                assert(before.dom().finite()) by {
                                    assert(before.dom() =~= self.spec_nodes().dom().insert(c));
                                }
                                assert(cn@ == before[c]);
                                assert(before[c] == dm[c]);
                                assert(base[c] == dm[c]);
                                assert forall|k: NodeId, jj: int|
                                    #![trigger base[k].children[jj]]
                                    base.contains_key(k) && !self.spec_nodes().contains_key(k) && 0 <= jj
                                        < base[k].children.len() implies !self.spec_nodes().contains_key(
                                        base[k].children[jj],
                                    ) || stack@.contains(base[k].children[jj]) by {
                                    let ch = base[k].children[jj];
                                    if k == c {
                                        assert(cn.children@[jj] == ch);
                                        assert(stack@[stack0.len() - 1 + jj] == ch);
                                    } else if self.spec_nodes().contains_key(ch) {
                                        assert(before.contains_key(k) ==> self.spec_nodes().contains_key(k));
                                        assert(!before.contains_key(k));
                                        assert(stack0.contains(ch));
                                        let t = choose|t: int| 0 <= t < stack0.len() && stack0[t] == ch;
                                        assert(ch != c);
                                        assert(t < stack0.len() - 1);
                                        assert(stack@[t] == ch);
                                    }
                                }
                            }
                        },
                        None => {
                            proof {
                                assert(self.spec_nodes() =~= before);
                                assert forall|k: NodeId, jj: int|
                                    #![trigger base[k].children[jj]]
                                    base.contains_key(k) && !self.spec_nodes().contains_key(k) && 0 <= jj
                                        < base[k].children.len() implies !self.spec_nodes().contains_key(
                                        base[k].children[jj],
                                    ) || stack@.contains(base[k].children[jj]) by {
                                    let ch = base[k].children[jj];
                                    if self.spec_nodes().contains_key(ch) {
                                        assert(stack0.contains(ch));
                                        let t = choose|t: int| 0 <= t < stack0.len() && stack0[t] == ch;
                                        assert(ch != c);
                                        assert(t < stack0.len() - 1);
                                        assert(stack@[t] == ch);
                                    }
                                }
                            }
                        },
                    }
                },
            }
        }
        Some(node)
    }

    /// Number of live nodes in the arena.
    pub fn len(&self) -> (r: usize)
        ensures
            r == self.spec_nodes().len(),
    {
        proof {
            assert(self.spec_nodes().dom() =~= self.nodes@.dom());
        }
        self.nodes.len()
    }

    /// True when `id` is a window leaf.
    pub fn is_leaf(&self, id: NodeId) -> (r: bool)
        ensures
            r == (self.spec_nodes().contains_key(id) && self.spec_nodes()[id].data is Window),
    {
        match self.nodes.get(&id) {
            Some(n) => match n.data {
                NodeData::Window { .. } => true,
                NodeData::Split { .. } => false,
            },
            None => false,
        }
    }
}

} // verus!

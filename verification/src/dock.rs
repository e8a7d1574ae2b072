//! The dock: surfaces of split trees whose leaves hold tabs.
//!
//! The dock itself is `egui_dock::DockState`. This module names what such a
//! state holds, states what the operations used here do to it, and wraps it in
//! [`Dock`], whose invariant every operation keeps.

use vstd::prelude::*;
use vstd::multiset::Multiset;
use egui_dock::{DockState, Node, NodeIndex, NodePath, SurfaceIndex, TabIndex, TabPath};
use crate::tabs::DockTab;

verus! {

#[verifier::external_type_specification]
#[verifier::external_body]
#[verifier::reject_recursive_types(T)]
pub struct ExDockState<T>(egui_dock::DockState<T>);

/// What a leaf holds: its tabs in order and the index of the open one.
#[verifier::ext_equal]
pub struct LeafView {
    pub tabs: Seq<DockTab>,
    pub active: nat,
}

/// A node of a split tree.
#[verifier::ext_equal]
pub enum NodeView {
    Empty,
    Leaf(LeafView),
    Vertical,
    Horizontal,
}

/// A split tree stored as a heap: the children of node `i` are `2i + 1` and
/// `2i + 2`.
#[verifier::ext_equal]
pub struct TreeView {
    pub nodes: Seq<NodeView>,
    pub focused: Option<nat>,
}

/// All surfaces of a dock, and the one that has focus.
#[verifier::ext_equal]
pub struct DockView {
    pub surfaces: Seq<Option<TreeView>>,
    pub focus: Option<nat>,
}

/// Place of a node: which surface, and where in its tree.
#[derive(Clone, Copy, Debug, PartialEq, Eq, Structural)]
pub struct NodePos {
    pub surface: usize,
    pub node: usize,
}

/// Place of a tab: its leaf, and where in the leaf.
#[derive(Clone, Copy, Debug, PartialEq, Eq, Structural)]
pub struct TabPos {
    pub surface: usize,
    pub node: usize,
    pub tab: usize,
}

impl TabPos {
    /// The leaf that holds the tab.
    pub open spec fn spec_node_pos(self) -> NodePos {
        NodePos { surface: self.surface, node: self.node }
    }

    #[verifier::when_used_as_spec(spec_node_pos)]
    pub fn node_pos(self) -> (r: NodePos)
        ensures
            r == self.spec_node_pos(),
    {
        NodePos { surface: self.surface, node: self.node }
    }
}

/// A node as read out of a dock.
pub enum NodeShape {
    Empty,
    Leaf { tabs: Vec<DockTab>, active: usize },
    Vertical,
    Horizontal,
}

impl View for NodeShape {
    type V = NodeView;

    open spec fn view(&self) -> NodeView {
        match self {
            NodeShape::Empty => NodeView::Empty,
            NodeShape::Leaf { tabs, active } => NodeView::Leaf(
                LeafView { tabs: tabs@, active: *active as nat },
            ),
            NodeShape::Vertical => NodeView::Vertical,
            NodeShape::Horizontal => NodeView::Horizontal,
        }
    }
}

/// The views of a list of nodes.
pub open spec fn shapes_view(nodes: Seq<NodeShape>) -> Seq<NodeView> {
    nodes.map_values(|n: NodeShape| n@)
}

/// The surfaces of a dock state: `None` for a slot whose window was closed,
/// otherwise its tree.
pub uninterp spec fn dock_surfaces(d: DockState<DockTab>) -> Seq<Option<TreeView>>;

/// The surface that a dock state remembers as focused.
pub uninterp spec fn dock_focus(d: DockState<DockTab>) -> Option<nat>;

/// The tree that is left when the leaf at `node` is taken out: its parent split
/// goes with it and the sibling subtree moves up into the parent's place.
pub uninterp spec fn tree_without_leaf(tree: TreeView, node: nat) -> TreeView;

/// Whether a node splits its area between two children.
pub open spec fn is_split(n: NodeView) -> bool {
    n is Vertical || n is Horizontal
}

/// Whether node `i` fits into the heap: unless it is empty or the root it hangs
/// below a split, and a split has two children that are not empty.
pub open spec fn node_placed(nodes: Seq<NodeView>, i: int) -> bool {
    &&& i > 0 && !(nodes[i] is Empty) ==> is_split(nodes[(i - 1) / 2])
    &&& is_split(nodes[i]) ==> 2 * i + 2 < nodes.len() && !(nodes[2 * i + 1] is Empty) && !(nodes[2
        * i + 2] is Empty)
}

/// The tabs of a node, counted with repetition.
pub open spec fn node_tabs(node: NodeView) -> Multiset<DockTab> {
    match node {
        NodeView::Leaf(leaf) => leaf.tabs.to_multiset(),
        _ => Multiset::empty(),
    }
}

/// The tabs of a tree, counted with repetition.
pub open spec fn tree_tabs(nodes: Seq<NodeView>) -> Multiset<DockTab>
    decreases nodes.len(),
{
    if nodes.len() == 0 {
        Multiset::empty()
    } else {
        tree_tabs(nodes.drop_last()).add(node_tabs(nodes.last()))
    }
}

/// The tabs of a surface slot, counted with repetition.
pub open spec fn slot_tabs(slot: Option<TreeView>) -> Multiset<DockTab> {
    match slot {
        Some(tree) => tree_tabs(tree.nodes),
        None => Multiset::empty(),
    }
}

/// The tabs of several surfaces, counted with repetition.
pub open spec fn surfaces_tabs(surfaces: Seq<Option<TreeView>>) -> Multiset<DockTab>
    decreases surfaces.len(),
{
    if surfaces.len() == 0 {
        Multiset::empty()
    } else {
        surfaces_tabs(surfaces.drop_last()).add(slot_tabs(surfaces.last()))
    }
}

/// The leaf at a node, if it is one.
pub open spec fn node_leaves(node: NodeView) -> Multiset<LeafView> {
    match node {
        NodeView::Leaf(leaf) => Multiset::singleton(leaf),
        _ => Multiset::empty(),
    }
}

/// The leaves of a tree, counted with repetition.
pub open spec fn tree_leaves(nodes: Seq<NodeView>) -> Multiset<LeafView>
    decreases nodes.len(),
{
    if nodes.len() == 0 {
        Multiset::empty()
    } else {
        tree_leaves(nodes.drop_last()).add(node_leaves(nodes.last()))
    }
}

/// The leaves of a surface slot, counted with repetition.
pub open spec fn slot_leaves(slot: Option<TreeView>) -> Multiset<LeafView> {
    match slot {
        Some(tree) => tree_leaves(tree.nodes),
        None => Multiset::empty(),
    }
}

/// The leaves of several surfaces, counted with repetition.
pub open spec fn surfaces_leaves(surfaces: Seq<Option<TreeView>>) -> Multiset<LeafView>
    decreases surfaces.len(),
{
    if surfaces.len() == 0 {
        Multiset::empty()
    } else {
        surfaces_leaves(surfaces.drop_last()).add(slot_leaves(surfaces.last()))
    }
}

impl TreeView {
    /// The heap is a proper binary tree and the focused node is a leaf of it.
    pub open spec fn wf(self) -> bool {
        &&& self.nodes.len() > 0 ==> !(self.nodes[0] is Empty)
        &&& forall|i: int| 0 <= i < self.nodes.len() ==> #[trigger] node_placed(self.nodes, i)
        &&& match self.focused {
            Some(f) => self.nodes.len() > 0 ==> f < self.nodes.len() && self.nodes[f as int] is Leaf,
            None => true,
        }
    }

    /// The leaf at `node`, if there is one.
    pub open spec fn leaf(self, node: int) -> Option<LeafView> {
        if 0 <= node < self.nodes.len() {
            match self.nodes[node] {
                NodeView::Leaf(leaf) => Some(leaf),
                _ => None,
            }
        } else {
            None
        }
    }

    /// The tree with the leaf at `node` replaced.
    pub open spec fn with_leaf(self, node: int, leaf: LeafView) -> TreeView {
        TreeView { nodes: self.nodes.update(node, NodeView::Leaf(leaf)), ..self }
    }

    /// The node that a pushed tab goes to: the focused leaf, else the first.
    pub open spec fn push_target(self) -> int {
        match self.focused {
            Some(f) => f as int,
            None => first_leaf_from(self.nodes, 0),
        }
    }

    /// The tree after a tab was pushed to its focused leaf.
    pub open spec fn pushed(self, tab: DockTab) -> TreeView {
        if self.nodes.len() == 0 {
            TreeView {
                nodes: seq![NodeView::Leaf(LeafView { tabs: seq![tab], active: 0 })],
                focused: Some(0),
            }
        } else {
            let target = self.push_target();
            TreeView {
                focused: Some(target as nat),
                ..self.with_leaf(target, appended(self.leaf(target)->0, tab))
            }
        }
    }
}

/// The first leaf at or after `i`.
pub open spec fn first_leaf_from(nodes: Seq<NodeView>, i: int) -> int
    decreases nodes.len() - i,
{
    if i >= nodes.len() || nodes[i] is Leaf {
        i
    } else {
        first_leaf_from(nodes, i + 1)
    }
}

/// A leaf with one more tab at the end, which becomes the open one.
pub open spec fn appended(leaf: LeafView, tab: DockTab) -> LeafView {
    LeafView { tabs: leaf.tabs.push(tab), active: leaf.tabs.len() }
}

/// A leaf with the tab at `i` taken out. The open tab moves one to the left
/// when it stood at or behind the one that left.
pub open spec fn leaf_without(leaf: LeafView, i: int) -> LeafView {
    LeafView {
        tabs: leaf.tabs.remove(i),
        active: if i <= leaf.active && leaf.active > 0 {
            (leaf.active - 1) as nat
        } else {
            leaf.active
        },
    }
}

impl DockView {
    /// Whether surface `s` exists and holds a tree.
    pub open spec fn has_tree(self, s: int) -> bool {
        0 <= s < self.surfaces.len() && self.surfaces[s] is Some
    }

    /// The tree of surface `s`.
    pub open spec fn tree(self, s: int) -> TreeView {
        self.surfaces[s]->0
    }

    /// The dock with the tree of surface `s` replaced.
    pub open spec fn with_tree(self, s: int, tree: TreeView) -> DockView {
        DockView { surfaces: self.surfaces.update(s, Some(tree)), ..self }
    }

    /// The leaf at a place, if there is one.
    pub open spec fn leaf(self, pos: NodePos) -> Option<LeafView> {
        if self.has_tree(pos.surface as int) {
            self.tree(pos.surface as int).leaf(pos.node as int)
        } else {
            None
        }
    }

    /// The dock with the leaf at a place replaced.
    pub open spec fn with_leaf(self, pos: NodePos, leaf: LeafView) -> DockView {
        self.with_tree(
            pos.surface as int,
            self.tree(pos.surface as int).with_leaf(pos.node as int, leaf),
        )
    }

    /// The tab at a place, if there is one.
    pub open spec fn tab_at(self, pos: TabPos) -> Option<DockTab> {
        match self.leaf(pos.node_pos()) {
            Some(leaf) => if pos.tab < leaf.tabs.len() {
                Some(leaf.tabs[pos.tab as int])
            } else {
                None
            },
            None => None,
        }
    }

    /// All tabs of the dock, counted with repetition.
    pub open spec fn tabs(self) -> Multiset<DockTab> {
        surfaces_tabs(self.surfaces)
    }

    /// All leaves of the dock with their tabs, counted with repetition.
    pub open spec fn leaves(self) -> Multiset<LeafView> {
        surfaces_leaves(self.surfaces)
    }

    /// Whether the tab stands anywhere in the dock.
    pub open spec fn holds(self, tab: DockTab) -> bool {
        self.tabs().contains(tab)
    }

    /// The main surface has a tree, every tree is well formed, and the focused
    /// surface is one that has a tree.
    pub open spec fn wf(self) -> bool {
        &&& self.has_tree(0)
        &&& forall|s: int| #[trigger] self.has_tree(s) ==> self.tree(s).wf()
        &&& match self.focus {
            Some(f) => self.has_tree(f as int),
            None => true,
        }
    }

    /// The surface that a pushed tab goes to.
    pub open spec fn push_surface(self) -> int {
        match self.focus {
            Some(f) => f as int,
            None => 0,
        }
    }

    /// The dock after a tab was pushed to the focused leaf.
    pub open spec fn pushed(self, tab: DockTab) -> DockView {
        let s = self.push_surface();
        self.with_tree(s, self.tree(s).pushed(tab))
    }

    /// The focused leaf.
    pub open spec fn focused_leaf(self) -> Option<(nat, nat)> {
        match self.focus {
            Some(s) => match self.tree(s as int).focused {
                Some(n) => Some((s, n)),
                None => None,
            },
            None => None,
        }
    }

    /// The dock after focus was asked to move to a place: there if it is a
    /// leaf, nowhere if it is not.
    pub open spec fn focused_on(self, pos: NodePos) -> DockView {
        if self.leaf(pos) is Some {
            DockView {
                focus: Some(pos.surface as nat),
                ..self.with_tree(
                    pos.surface as int,
                    TreeView {
                        focused: Some(pos.node as nat),
                        ..self.tree(pos.surface as int)
                    },
                )
            }
        } else {
            DockView { focus: None, ..self }
        }
    }

    /// The dock after a tab was made the open one of its leaf.
    pub open spec fn activated(self, pos: TabPos) -> DockView {
        if self.tab_at(pos) is Some {
            self.with_leaf(
                pos.node_pos(),
                LeafView { active: pos.tab as nat, ..self.leaf(pos.node_pos())->0 },
            )
        } else {
            self
        }
    }

    /// The dock after a window surface was dropped: focus goes to the main
    /// surface, the slot is freed, and vanishes if it was the last.
    pub open spec fn without_surface(self, s: int) -> DockView {
        DockView {
            surfaces: if s == self.surfaces.len() - 1 {
                self.surfaces.drop_last()
            } else {
                self.surfaces.update(s, None)
            },
            focus: Some(0),
        }
    }

    /// The dock after the tab at a place was taken out. A leaf that loses its
    /// last tab goes too, and so does a window that loses its last leaf.
    pub open spec fn without_tab(self, pos: TabPos) -> DockView {
        let leaf = self.leaf(pos.node_pos())->0;
        if leaf.tabs.len() > 1 {
            self.with_leaf(pos.node_pos(), leaf_without(leaf, pos.tab as int))
        } else {
            let s = pos.surface as int;
            let rest = tree_without_leaf(self.tree(s), pos.node as nat);
            if s != 0 && rest.nodes.len() == 0 {
                self.with_tree(s, rest).without_surface(s)
            } else {
                self.with_tree(s, rest)
            }
        }
    }
}

/// The view of a dock state.
pub open spec fn dock_view(d: DockState<DockTab>) -> DockView {
    DockView { surfaces: dock_surfaces(d), focus: dock_focus(d) }
}

/// `DockState::new`: one main surface whose root leaf holds the given tabs;
/// nothing is focused.
#[verifier::external_body]
fn state_new(tabs: Vec<DockTab>) -> (d: DockState<DockTab>)
    ensures
        dock_surfaces(d) == seq![
            Some(
                TreeView {
                    nodes: seq![NodeView::Leaf(LeafView { tabs: tabs@, active: 0 })],
                    focused: None,
                },
            ),
        ],
        dock_focus(d) is None,
{
    DockState::new(tabs)
}

/// `DockState::surfaces_count`: the number of surface slots.
#[verifier::external_body]
fn state_surfaces(d: &DockState<DockTab>) -> (n: usize)
    ensures
        n == dock_surfaces(*d).len(),
{
    d.surfaces_count()
}

/// `DockState::get_surface` and the nodes of its tree, each turned into a
/// [`NodeShape`]; `None` for a slot that does not exist or is empty.
#[verifier::external_body]
fn state_nodes(d: &DockState<DockTab>, surface: usize) -> (r: Option<Vec<NodeShape>>)
    ensures
        r is Some <==> dock_view(*d).has_tree(surface as int),
        r matches Some(nodes) ==> shapes_view(nodes@) == dock_view(*d).tree(surface as int).nodes,
{
    let tree = d.get_surface(SurfaceIndex(surface))?.node_tree()?;
    Some(tree.iter().map(|n| match n {
        Node::Empty => NodeShape::Empty,
        Node::Leaf(leaf) => NodeShape::Leaf { tabs: leaf.tabs.clone(), active: leaf.active.0 },
        Node::Vertical(_) => NodeShape::Vertical,
        Node::Horizontal(_) => NodeShape::Horizontal,
    }).collect())
}

/// `DockState::find_tab`: the first place that holds the tab, surfaces first,
/// then nodes in heap order, then tabs in order.
#[verifier::external_body]
fn state_find_tab(d: &DockState<DockTab>, tab: &DockTab) -> (r: Option<TabPos>)
    ensures
        r matches Some(pos) ==> dock_view(*d).first_at(*tab, pos),
        r is None ==> !dock_view(*d).holds(*tab),
{
    let path = d.find_tab(tab)?;
    Some(TabPos { surface: path.surface.0, node: path.node.0, tab: path.tab.0 })
}

/// `DockState::set_active_tab`: opens the tab at a place in its leaf; an error
/// and no change where there is no such tab.
#[verifier::external_body]
fn state_set_active(d: &mut DockState<DockTab>, pos: TabPos) -> (ok: bool)
    ensures
        dock_view(*final(d)) == dock_view(*old(d)).activated(pos),
        ok == (dock_view(*old(d)).tab_at(pos) is Some),
{
    let path = TabPath::new(SurfaceIndex(pos.surface), NodeIndex(pos.node), TabIndex(pos.tab));
    d.set_active_tab(path).is_ok()
}

/// `DockState::set_focused_node_and_surface`: focuses the leaf at a place, or
/// forgets which surface is focused where there is no leaf.
#[verifier::external_body]
fn state_set_focus(d: &mut DockState<DockTab>, pos: NodePos)
    ensures
        dock_view(*final(d)) == dock_view(*old(d)).focused_on(pos),
{
    d.set_focused_node_and_surface(NodePath::new(SurfaceIndex(pos.surface), NodeIndex(pos.node)));
}

/// `DockState::focused_leaf`: the focused node of the focused surface. It
/// panics where the focused surface holds no tree.
#[verifier::external_body]
fn state_focused_leaf(d: &DockState<DockTab>) -> (r: Option<NodePos>)
    requires
        dock_view(*d).wf(),
    ensures
        r is Some <==> dock_view(*d).focused_leaf() is Some,
        r matches Some(pos) ==> dock_view(*d).focused_leaf() == Some(
            (pos.surface as nat, pos.node as nat),
        ),
{
    let path = d.focused_leaf()?;
    Some(NodePos { surface: path.surface.0, node: path.node.0 })
}

/// `DockState::push_to_focused_leaf`: appends the tab to the focused leaf, or
/// to the first leaf where none is focused, or to a fresh root leaf where the
/// tree is empty, and focuses that leaf within its tree.
#[verifier::external_body]
fn state_push(d: &mut DockState<DockTab>, tab: DockTab)
    requires
        dock_view(*old(d)).wf(),
    ensures
        dock_view(*final(d)) == dock_view(*old(d)).pushed(tab),
{
    d.push_to_focused_leaf(tab);
}

/// `DockState::remove_tab`: takes the tab at a place out and hands it back. It
/// panics where there is no such tab.
#[verifier::external_body]
fn state_remove_tab(d: &mut DockState<DockTab>, pos: TabPos) -> (r: Option<DockTab>)
    requires
        dock_view(*old(d)).wf(),
        dock_view(*old(d)).tab_at(pos) is Some,
    ensures
        r == dock_view(*old(d)).tab_at(pos),
        dock_view(*final(d)) == dock_view(*old(d)).without_tab(pos),
        dock_view(*final(d)).wf(),
        dock_view(*old(d)).leaf(pos.node_pos())->0.tabs.len() == 1 ==> leaf_taken(
            dock_view(*old(d)).tree(pos.surface as int),
            pos.node as nat,
            tree_without_leaf(dock_view(*old(d)).tree(pos.surface as int), pos.node as nat),
        ),
{
    d.remove_tab(TabPath::new(SurfaceIndex(pos.surface), NodeIndex(pos.node), TabIndex(pos.tab)))
}

/// `Tree::remove_leaf` on one surface: takes the leaf and its parent split out
/// of the tree, and moves the other leaves as they are. It panics where the place
/// is no leaf.
#[verifier::external_body]
fn state_remove_leaf(d: &mut DockState<DockTab>, pos: NodePos)
    requires
        dock_view(*old(d)).wf(),
        dock_view(*old(d)).leaf(pos) is Some,
    ensures
        dock_view(*final(d)) == dock_view(*old(d)).with_tree(
            pos.surface as int,
            tree_without_leaf(dock_view(*old(d)).tree(pos.surface as int), pos.node as nat),
        ),
        dock_view(*final(d)).wf(),
        leaf_taken(
            dock_view(*old(d)).tree(pos.surface as int),
            pos.node as nat,
            dock_view(*final(d)).tree(pos.surface as int),
        ),
{
    d[SurfaceIndex(pos.surface)].remove_leaf(NodeIndex(pos.node));
}

/// `DockState::leaf_mut` and `LeafNode::append_tab`: appends a tab to the leaf
/// at a place and opens it; an error and no change where there is no leaf.
#[verifier::external_body]
fn state_append(d: &mut DockState<DockTab>, pos: NodePos, tab: DockTab) -> (ok: bool)
    ensures
        ok == (dock_view(*old(d)).leaf(pos) is Some),
        dock_view(*final(d)) == if dock_view(*old(d)).leaf(pos) is Some {
            dock_view(*old(d)).with_leaf(pos, appended(dock_view(*old(d)).leaf(pos)->0, tab))
        } else {
            dock_view(*old(d))
        },
{
    match d.leaf_mut(NodePath::new(SurfaceIndex(pos.surface), NodeIndex(pos.node))) {
        Ok(leaf) => { leaf.append_tab(tab); true }
        Err(_) => false,
    }
}

/// `DockState::leaf_mut` and an assignment to the leaf's two public fields;
/// an error and no change where there is no leaf.
#[verifier::external_body]
fn state_set_leaf(d: &mut DockState<DockTab>, pos: NodePos, tabs: Vec<DockTab>, active: usize) -> (ok: bool)
    ensures
        ok == (dock_view(*old(d)).leaf(pos) is Some),
        dock_view(*final(d)) == if dock_view(*old(d)).leaf(pos) is Some {
            dock_view(*old(d)).with_leaf(pos, LeafView { tabs: tabs@, active: active as nat })
        } else {
            dock_view(*old(d))
        },
{
    match d.leaf_mut(NodePath::new(SurfaceIndex(pos.surface), NodeIndex(pos.node))) {
        Ok(leaf) => { leaf.tabs = tabs; leaf.active = TabIndex(active); true }
        Err(_) => false,
    }
}

/// What is left of a tree once a leaf was taken out: a well-formed tree with the
/// other leaves, each with its tabs in order and its open tab.
pub open spec fn leaf_taken(before: TreeView, node: nat, after: TreeView) -> bool {
    &&& after.wf()
    &&& tree_tabs(after.nodes) == tree_tabs(before.nodes).sub(
        node_tabs(before.nodes[node as int]),
    )
    &&& before.nodes[node as int] matches NodeView::Leaf(leaf) && tree_leaves(after.nodes)
        == tree_leaves(before.nodes).remove(leaf)
    &&& node == 0 ==> after.nodes.len() == 0
}

impl DockView {
    /// Whether one place comes before another or is the same, in the order in
    /// which a search visits them.
    pub open spec fn at_or_before(a: TabPos, b: TabPos) -> bool {
        a.surface < b.surface || (a.surface == b.surface && (a.node < b.node || (a.node == b.node
            && a.tab <= b.tab)))
    }

    /// Whether a place holds the tab and no earlier place does.
    pub open spec fn first_at(self, tab: DockTab, pos: TabPos) -> bool {
        &&& self.tab_at(pos) == Some(tab)
        &&& forall|q: TabPos| #[trigger]
            self.tab_at(q) == Some(tab) ==> DockView::at_or_before(pos, q)
    }

    /// The first place that holds the tab.
    pub open spec fn find(self, tab: DockTab) -> Option<TabPos> {
        if exists|pos: TabPos| self.first_at(tab, pos) {
            Some(choose|pos: TabPos| self.first_at(tab, pos))
        } else {
            None
        }
    }
}

/// A dock and its operations.
pub struct Dock {
    pub state: DockState<DockTab>,
}

impl View for Dock {
    type V = DockView;

    open spec fn view(&self) -> DockView {
        dock_view(self.state)
    }
}

proof fn lemma_find(v: DockView, tab: DockTab, pos: TabPos)
    requires
        v.first_at(tab, pos),
    ensures
        v.find(tab) == Some(pos),
{
    let other = choose|p: TabPos| v.first_at(tab, p);
    assert(v.first_at(tab, other));
    assert(DockView::at_or_before(pos, other));
    assert(DockView::at_or_before(other, pos));
}

proof fn lemma_no_find(v: DockView, tab: DockTab)
    requires
        !v.holds(tab),
    ensures
        v.find(tab) is None,
{
    if exists|pos: TabPos| v.first_at(tab, pos) {
        let pos = choose|p: TabPos| v.first_at(tab, p);
        lemma_tab_at_counted(v, pos);
    }
}

/// A tree with nodes has a leaf below every one that is not empty.
proof fn lemma_leaf_below(tree: TreeView, i: int) -> (leaf: int)
    requires
        tree.wf(),
        0 <= i < tree.nodes.len(),
        !(tree.nodes[i] is Empty),
    ensures
        i <= leaf < tree.nodes.len(),
        tree.nodes[leaf] is Leaf,
    decreases tree.nodes.len() - i,
{
    if tree.nodes[i] is Leaf {
        i
    } else {
        assert(node_placed(tree.nodes, i));
        lemma_leaf_below(tree, 2 * i + 1)
    }
}

proof fn lemma_first_leaf(nodes: Seq<NodeView>, i: int, leaf: int)
    requires
        0 <= i <= leaf < nodes.len(),
        nodes[leaf] is Leaf,
    ensures
        i <= first_leaf_from(nodes, i) <= leaf,
        nodes[first_leaf_from(nodes, i)] is Leaf,
    decreases leaf - i,
{
    if !(nodes[i] is Leaf) {
        lemma_first_leaf(nodes, i + 1, leaf);
    }
}

/// A pushed tab goes to a leaf.
pub proof fn lemma_push_target(tree: TreeView)
    requires
        tree.wf(),
        tree.nodes.len() > 0,
    ensures
        tree.leaf(tree.push_target()) is Some,
{
    let leaf = lemma_leaf_below(tree, 0);
    lemma_first_leaf(tree.nodes, 0, leaf);
}

/// Replacing the contents of a leaf keeps a dock well formed.
pub proof fn lemma_with_leaf_wf(v: DockView, pos: NodePos, leaf: LeafView)
    requires
        v.wf(),
        v.leaf(pos) is Some,
    ensures
        v.with_leaf(pos, leaf).wf(),
{
    let s = pos.surface as int;
    let before = v.tree(s);
    let after = before.with_leaf(pos.node as int, leaf);
    assert(v.has_tree(s));
    assert forall|i: int| 0 <= i < after.nodes.len() implies #[trigger] node_placed(
        after.nodes,
        i,
    ) by {
        assert(node_placed(before.nodes, i));
    }
    assert(after.wf());
    let w = v.with_leaf(pos, leaf);
    assert forall|t: int| #[trigger] w.has_tree(t) implies w.tree(t).wf() by {
        assert(v.has_tree(t));
    }
    assert(w.has_tree(0));
}

/// Moving focus keeps a dock well formed.
pub proof fn lemma_focused_on_wf(v: DockView, pos: NodePos)
    requires
        v.wf(),
    ensures
        v.focused_on(pos).wf(),
{
    let w = v.focused_on(pos);
    assert forall|t: int| #[trigger] w.has_tree(t) implies w.tree(t).wf() by {
        assert(v.has_tree(t));
    }
    assert(v.has_tree(0));
    assert(w.has_tree(0));
}

/// Pushing a tab keeps a dock well formed.
pub proof fn lemma_pushed_wf(v: DockView, tab: DockTab)
    requires
        v.wf(),
    ensures
        v.pushed(tab).wf(),
{
    let s = v.push_surface();
    let tree = v.tree(s);
    assert(v.has_tree(s));
    let w = v.pushed(tab);
    if tree.nodes.len() > 0 {
        lemma_push_target(tree);
        let target = tree.push_target();
        let after = tree.pushed(tab);
        assert forall|i: int| 0 <= i < after.nodes.len() implies #[trigger] node_placed(
            after.nodes,
            i,
        ) by {
            assert(node_placed(tree.nodes, i));
        }
        assert(after.wf());
    }
    assert forall|t: int| #[trigger] w.has_tree(t) implies w.tree(t).wf() by {
        assert(v.has_tree(t));
    }
    assert(w.has_tree(0));
}

/// Replacing one node replaces its tabs among those of the tree.
pub proof fn lemma_tree_tabs_update(nodes: Seq<NodeView>, i: int, node: NodeView)
    requires
        0 <= i < nodes.len(),
    ensures
        tree_tabs(nodes.update(i, node)) == tree_tabs(nodes).sub(node_tabs(nodes[i])).add(
            node_tabs(node),
        ),
        node_tabs(nodes[i]).subset_of(tree_tabs(nodes)),
    decreases nodes.len(),
{
    let updated = nodes.update(i, node);
    if i == nodes.len() - 1 {
        assert(updated.drop_last() =~= nodes.drop_last());
        assert(tree_tabs(updated) =~= tree_tabs(nodes).sub(node_tabs(nodes[i])).add(
            node_tabs(node),
        ));
    } else {
        lemma_tree_tabs_update(nodes.drop_last(), i, node);
        assert(updated.drop_last() =~= nodes.drop_last().update(i, node));
        assert(tree_tabs(updated) =~= tree_tabs(nodes).sub(node_tabs(nodes[i])).add(
            node_tabs(node),
        ));
    }
}

/// Replacing one surface replaces its tabs among those of the dock.
pub proof fn lemma_surfaces_tabs_update(
    surfaces: Seq<Option<TreeView>>,
    s: int,
    slot: Option<TreeView>,
)
    requires
        0 <= s < surfaces.len(),
    ensures
        surfaces_tabs(surfaces.update(s, slot)) == surfaces_tabs(surfaces).sub(
            slot_tabs(surfaces[s]),
        ).add(slot_tabs(slot)),
        slot_tabs(surfaces[s]).subset_of(surfaces_tabs(surfaces)),
    decreases surfaces.len(),
{
    let updated = surfaces.update(s, slot);
    if s == surfaces.len() - 1 {
        assert(updated.drop_last() =~= surfaces.drop_last());
        assert(surfaces_tabs(updated) =~= surfaces_tabs(surfaces).sub(slot_tabs(surfaces[s])).add(
            slot_tabs(slot),
        ));
    } else {
        lemma_surfaces_tabs_update(surfaces.drop_last(), s, slot);
        assert(updated.drop_last() =~= surfaces.drop_last().update(s, slot));
        assert(surfaces_tabs(updated) =~= surfaces_tabs(surfaces).sub(slot_tabs(surfaces[s])).add(
            slot_tabs(slot),
        ));
    }
}

proof fn lemma_tree_tabs_member(nodes: Seq<NodeView>, tab: DockTab) -> (i: int)
    requires
        tree_tabs(nodes).contains(tab),
    ensures
        0 <= i < nodes.len(),
        node_tabs(nodes[i]).contains(tab),
    decreases nodes.len(),
{
    if node_tabs(nodes.last()).contains(tab) {
        nodes.len() - 1
    } else {
        lemma_tree_tabs_member(nodes.drop_last(), tab)
    }
}

proof fn lemma_surfaces_tabs_member(surfaces: Seq<Option<TreeView>>, tab: DockTab) -> (s: int)
    requires
        surfaces_tabs(surfaces).contains(tab),
    ensures
        0 <= s < surfaces.len(),
        slot_tabs(surfaces[s]).contains(tab),
    decreases surfaces.len(),
{
    if slot_tabs(surfaces.last()).contains(tab) {
        surfaces.len() - 1
    } else {
        lemma_surfaces_tabs_member(surfaces.drop_last(), tab)
    }
}

/// A tab that stands somewhere in the dock is among its tabs.
pub proof fn lemma_tab_at_counted(v: DockView, pos: TabPos)
    requires
        v.tab_at(pos) is Some,
    ensures
        v.tabs().contains(v.tab_at(pos)->0),
{
    broadcast use vstd::seq_lib::group_to_multiset_ensures;

    let s = pos.surface as int;
    let tree = v.tree(s);
    lemma_surfaces_tabs_update(v.surfaces, s, v.surfaces[s]);
    lemma_tree_tabs_update(tree.nodes, pos.node as int, tree.nodes[pos.node as int]);
    let tabs = v.leaf(pos.node_pos())->0.tabs;
    assert(tabs.to_multiset().contains(tabs[pos.tab as int]));
}

/// Replacing the contents of a leaf replaces its tabs among those of the dock.
pub proof fn lemma_with_leaf_tabs(v: DockView, pos: NodePos, leaf: LeafView)
    requires
        v.leaf(pos) is Some,
    ensures
        v.with_leaf(pos, leaf).tabs() == v.tabs().sub((v.leaf(pos)->0).tabs.to_multiset()).add(
            leaf.tabs.to_multiset(),
        ),
        (v.leaf(pos)->0).tabs.to_multiset().subset_of(v.tabs()),
{
    let s = pos.surface as int;
    let tree = v.tree(s);
    lemma_surfaces_tabs_update(
        v.surfaces,
        s,
        Some(tree.with_leaf(pos.node as int, leaf)),
    );
    lemma_tree_tabs_update(tree.nodes, pos.node as int, NodeView::Leaf(leaf));
    assert(v.with_leaf(pos, leaf).tabs() =~= v.tabs().sub(
        (v.leaf(pos)->0).tabs.to_multiset(),
    ).add(leaf.tabs.to_multiset()));
}

/// Opening a tab moves none.
pub proof fn lemma_activated_tabs(v: DockView, pos: TabPos)
    ensures
        v.activated(pos).tabs() == v.tabs(),
{
    if v.tab_at(pos) is Some {
        let leaf = v.leaf(pos.node_pos())->0;
        lemma_with_leaf_tabs(v, pos.node_pos(), LeafView { active: pos.tab as nat, ..leaf });
        assert(v.activated(pos).tabs() =~= v.tabs());
    }
}

/// Moving focus moves no tab.
pub proof fn lemma_focused_on_tabs(v: DockView, pos: NodePos)
    ensures
        v.focused_on(pos).tabs() == v.tabs(),
{
    if v.leaf(pos) is Some {
        let s = pos.surface as int;
        lemma_surfaces_tabs_update(
            v.surfaces,
            s,
            Some(TreeView { focused: Some(pos.node as nat), ..v.tree(s) }),
        );
        assert(v.focused_on(pos).tabs() =~= v.tabs());
    }
}

/// Pushing a tab adds that tab and no other.
pub proof fn law_push_adds_tab(v: DockView, tab: DockTab)
    requires
        v.wf(),
    ensures
        v.pushed(tab).tabs() == v.tabs().insert(tab),
{
    broadcast use vstd::seq_lib::group_to_multiset_ensures;

    let s = v.push_surface();
    let tree = v.tree(s);
    let after = tree.pushed(tab);
    assert(v.has_tree(s));
    lemma_surfaces_tabs_update(v.surfaces, s, Some(after));
    if tree.nodes.len() == 0 {
        assert(after.nodes.drop_last() =~= Seq::<NodeView>::empty());
        assert(seq![tab] =~= Seq::<DockTab>::empty().push(tab));
        assert(Seq::<DockTab>::empty().to_multiset() =~= Multiset::empty());
        assert(tree_tabs(after.nodes.drop_last()) =~= Multiset::empty());
        assert(node_tabs(after.nodes.last()) =~= Multiset::<DockTab>::empty().insert(tab));
        assert(tree_tabs(after.nodes) =~= Multiset::<DockTab>::empty().insert(tab));
        assert(tree_tabs(tree.nodes) =~= Multiset::empty());
    } else {
        lemma_push_target(tree);
        let target = tree.push_target();
        let leaf = tree.leaf(target)->0;
        lemma_tree_tabs_update(tree.nodes, target, NodeView::Leaf(appended(leaf, tab)));
        assert(leaf.tabs.push(tab).to_multiset() =~= leaf.tabs.to_multiset().insert(tab));
    }
    assert(v.pushed(tab).tabs() =~= v.tabs().insert(tab));
}

/// Taking a tab out removes one occurrence of it and no other tab.
proof fn lemma_tree_leaves_update(nodes: Seq<NodeView>, i: int, node: NodeView)
    requires
        0 <= i < nodes.len(),
    ensures
        tree_leaves(nodes.update(i, node)) == tree_leaves(nodes).sub(node_leaves(nodes[i])).add(
            node_leaves(node),
        ),
        node_leaves(nodes[i]).subset_of(tree_leaves(nodes)),
    decreases nodes.len(),
{
    let updated = nodes.update(i, node);
    if i == nodes.len() - 1 {
        assert(updated.drop_last() =~= nodes.drop_last());
    } else {
        lemma_tree_leaves_update(nodes.drop_last(), i, node);
        assert(updated.drop_last() =~= nodes.drop_last().update(i, node));
    }
    assert(tree_leaves(updated) =~= tree_leaves(nodes).sub(node_leaves(nodes[i])).add(
        node_leaves(node),
    ));
}

proof fn lemma_surfaces_leaves_update(
    surfaces: Seq<Option<TreeView>>,
    s: int,
    slot: Option<TreeView>,
)
    requires
        0 <= s < surfaces.len(),
    ensures
        surfaces_leaves(surfaces.update(s, slot)) == surfaces_leaves(surfaces).sub(
            slot_leaves(surfaces[s]),
        ).add(slot_leaves(slot)),
        slot_leaves(surfaces[s]).subset_of(surfaces_leaves(surfaces)),
    decreases surfaces.len(),
{
    let updated = surfaces.update(s, slot);
    if s == surfaces.len() - 1 {
        assert(updated.drop_last() =~= surfaces.drop_last());
    } else {
        lemma_surfaces_leaves_update(surfaces.drop_last(), s, slot);
        assert(updated.drop_last() =~= surfaces.drop_last().update(s, slot));
    }
    assert(surfaces_leaves(updated) =~= surfaces_leaves(surfaces).sub(
        slot_leaves(surfaces[s]),
    ).add(slot_leaves(slot)));
}

/// Replacing a leaf replaces it among the leaves.
pub proof fn lemma_with_leaf_leaves(v: DockView, pos: NodePos, leaf: LeafView)
    requires
        v.leaf(pos) is Some,
    ensures
        v.with_leaf(pos, leaf).leaves() == v.leaves().remove(v.leaf(pos)->0).insert(leaf),
        v.leaves().contains(v.leaf(pos)->0),
{
    let s = pos.surface as int;
    let tree = v.tree(s);
    lemma_surfaces_leaves_update(v.surfaces, s, Some(tree.with_leaf(pos.node as int, leaf)));
    lemma_tree_leaves_update(tree.nodes, pos.node as int, NodeView::Leaf(leaf));
    assert(node_leaves(tree.nodes[pos.node as int]).contains(v.leaf(pos)->0));
    assert(v.with_leaf(pos, leaf).leaves() =~= v.leaves().remove(v.leaf(pos)->0).insert(leaf));
}

/// Focusing keeps the leaves.
pub proof fn lemma_focused_on_leaves(v: DockView, pos: NodePos)
    ensures
        v.focused_on(pos).leaves() == v.leaves(),
{
    if v.leaf(pos) is Some {
        let s = pos.surface as int;
        lemma_surfaces_leaves_update(
            v.surfaces,
            s,
            Some(TreeView { focused: Some(pos.node as nat), ..v.tree(s) }),
        );
        assert(v.focused_on(pos).leaves() =~= v.leaves());
    }
}

/// Taking a leaf out of its tree takes it from the leaves and leaves the others.
pub proof fn lemma_leaf_taken_leaves(v: DockView, pos: NodePos, rest: TreeView)
    requires
        v.leaf(pos) is Some,
        leaf_taken(v.tree(pos.surface as int), pos.node as nat, rest),
    ensures
        v.with_tree(pos.surface as int, rest).leaves() == v.leaves().remove(v.leaf(pos)->0),
        v.leaves().contains(v.leaf(pos)->0),
{
    let s = pos.surface as int;
    let leaf = v.leaf(pos)->0;
    lemma_with_leaf_leaves(v, pos, leaf);
    lemma_tree_leaves_update(v.tree(s).nodes, pos.node as int, NodeView::Leaf(leaf));
    assert(node_leaves(v.tree(s).nodes[pos.node as int]).contains(leaf));
    assert(tree_leaves(v.tree(s).nodes).contains(leaf));
    lemma_surfaces_leaves_update(v.surfaces, s, Some(rest));
    assert(v.with_tree(s, rest).leaves() =~= v.leaves().remove(leaf));
}

/// The leaves after a tab was taken out of one of them: it has one tab less, or
/// is gone where that was its last.
pub open spec fn leaves_without(leaves: Multiset<LeafView>, leaf: LeafView, i: int) -> Multiset<
    LeafView,
> {
    if leaf.tabs.len() > 1 {
        leaves.remove(leaf).insert(leaf_without(leaf, i))
    } else {
        leaves.remove(leaf)
    }
}

proof fn lemma_without_tab_leaves(v: DockView, pos: TabPos)
    requires
        v.wf(),
        v.tab_at(pos) is Some,
        v.leaf(pos.node_pos())->0.tabs.len() == 1 ==> leaf_taken(
            v.tree(pos.surface as int),
            pos.node as nat,
            tree_without_leaf(v.tree(pos.surface as int), pos.node as nat),
        ),
    ensures
        v.without_tab(pos).leaves() == leaves_without(
            v.leaves(),
            v.leaf(pos.node_pos())->0,
            pos.tab as int,
        ),
{
    let leaf = v.leaf(pos.node_pos())->0;
    let s = pos.surface as int;
    if leaf.tabs.len() > 1 {
        lemma_with_leaf_leaves(v, pos.node_pos(), leaf_without(leaf, pos.tab as int));
    } else {
        let rest = tree_without_leaf(v.tree(s), pos.node as nat);
        lemma_leaf_taken_leaves(v, pos.node_pos(), rest);
        let w = v.with_tree(s, rest);
        if s != 0 && rest.nodes.len() == 0 {
            assert(tree_leaves(rest.nodes) =~= Multiset::empty());
            lemma_surfaces_leaves_update(w.surfaces, s, None);
            if s == w.surfaces.len() - 1 {
                assert(w.surfaces.update(s, None).drop_last() =~= w.surfaces.drop_last());
                assert(surfaces_leaves(w.surfaces.drop_last()) =~= w.leaves());
            }
            assert(v.without_tab(pos).leaves() =~= w.leaves());
        }
    }
}

proof fn lemma_without_tab_tabs(v: DockView, pos: TabPos)
    requires
        v.wf(),
        v.tab_at(pos) is Some,
        v.leaf(pos.node_pos())->0.tabs.len() == 1 ==> leaf_taken(
            v.tree(pos.surface as int),
            pos.node as nat,
            tree_without_leaf(v.tree(pos.surface as int), pos.node as nat),
        ),
    ensures
        v.without_tab(pos).tabs() == v.tabs().remove(v.tab_at(pos)->0),
{
    broadcast use vstd::seq_lib::group_to_multiset_ensures;

    let tab = v.tab_at(pos)->0;
    let leaf = v.leaf(pos.node_pos())->0;
    let s = pos.surface as int;
    let tree = v.tree(s);
    let i = pos.tab as int;
    lemma_tab_at_counted(v, pos);
    if leaf.tabs.len() > 1 {
        let rest = leaf_without(leaf, i);
        lemma_with_leaf_tabs(v, pos.node_pos(), rest);
        assert(leaf.tabs.remove(i).to_multiset() =~= leaf.tabs.to_multiset().remove(leaf.tabs[i]));
        assert(leaf.tabs.to_multiset().contains(tab));
        assert(v.without_tab(pos).tabs() =~= v.tabs().remove(tab));
    } else {
        let rest = tree_without_leaf(tree, pos.node as nat);
        assert(leaf.tabs =~= seq![tab]);
        assert(leaf.tabs =~= Seq::<DockTab>::empty().push(tab));
        assert(Seq::<DockTab>::empty().to_multiset() =~= Multiset::empty());
        assert(node_tabs(tree.nodes[pos.node as int]) =~= Multiset::singleton(tab));
        lemma_tree_tabs_update(tree.nodes, pos.node as int, tree.nodes[pos.node as int]);
        lemma_surfaces_tabs_update(v.surfaces, s, Some(rest));
        let w = v.with_tree(s, rest);
        assert(w.tabs() =~= v.tabs().remove(tab));
        if s != 0 && rest.nodes.len() == 0 {
            assert(tree_tabs(rest.nodes) =~= Multiset::empty());
            lemma_surfaces_tabs_update(w.surfaces, s, None);
            if s == w.surfaces.len() - 1 {
                assert(w.surfaces.update(s, None).drop_last() =~= w.surfaces.drop_last());
                assert(surfaces_tabs(w.surfaces.drop_last()) =~= w.tabs());
            }
            assert(v.without_tab(pos).tabs() =~= v.tabs().remove(tab));
        }
    }
}

impl Dock {
    /// Whether the dock is well formed.
    pub open spec fn wf(&self) -> bool {
        self@.wf()
    }

    /// A dock with one pane that holds the given tabs.
    pub fn new(tabs: Vec<DockTab>) -> (r: Dock)
        ensures
            r.wf(),
            r@.surfaces == seq![
                Some(
                    TreeView {
                        nodes: seq![NodeView::Leaf(LeafView { tabs: tabs@, active: 0 })],
                        focused: None,
                    },
                ),
            ],
            r@.focus is None,
    {
        let state = state_new(tabs);
        let r = Dock { state };
        assert(r@.has_tree(0));
        r
    }

    /// The number of surfaces.
    pub fn surfaces(&self) -> (n: usize)
        ensures
            n == self@.surfaces.len(),
    {
        state_surfaces(&self.state)
    }

    /// The nodes of a surface's tree.
    pub fn nodes(&self, surface: usize) -> (r: Option<Vec<NodeShape>>)
        ensures
            r is Some <==> self@.has_tree(surface as int),
            r matches Some(nodes) ==> shapes_view(nodes@) == self@.tree(surface as int).nodes,
    {
        state_nodes(&self.state, surface)
    }

    /// The first place of a tab.
    pub fn find_tab(&self, tab: &DockTab) -> (r: Option<TabPos>)
        ensures
            r == self@.find(*tab),
            r matches Some(pos) ==> self@.first_at(*tab, pos),
            r is Some <==> self@.holds(*tab),
    {
        let r = state_find_tab(&self.state, tab);
        proof {
            match r {
                Some(pos) => {
                    lemma_find(self@, *tab, pos);
                    lemma_tab_at_counted(self@, pos);
                },
                None => {
                    lemma_no_find(self@, *tab);
                },
            }
        }
        r
    }

    /// The tabs of the leaf at a place and the index of the open one.
    pub fn leaf(&self, pos: NodePos) -> (r: Option<(Vec<DockTab>, usize)>)
        ensures
            r is Some <==> self@.leaf(pos) is Some,
            r matches Some(leaf) ==> self@.leaf(pos) == Some(
                LeafView { tabs: leaf.0@, active: leaf.1 as nat },
            ),
    {
        match state_nodes(&self.state, pos.surface) {
            Some(mut nodes) => {
                let ghost tree = self@.tree(pos.surface as int);
                if pos.node < nodes.len() {
                    assert(shapes_view(nodes@)[pos.node as int] == nodes@[pos.node as int]@);
                    let node = nodes.swap_remove(pos.node);
                    match node {
                        NodeShape::Leaf { tabs, active } => Some((tabs, active)),
                        _ => None,
                    }
                } else {
                    None
                }
            },
            None => None,
        }
    }

    /// Opens the tab at a place in its leaf; whether there was one.
    pub fn set_active_tab(&mut self, pos: TabPos) -> (ok: bool)
        requires
            old(self).wf(),
        ensures
            final(self).wf(),
            final(self)@ == old(self)@.activated(pos),
            ok == (old(self)@.tab_at(pos) is Some),
    {
        proof {
            if self@.tab_at(pos) is Some {
                lemma_with_leaf_wf(
                    self@,
                    pos.node_pos(),
                    LeafView { active: pos.tab as nat, ..self@.leaf(pos.node_pos())->0 },
                );
            }
        }
        state_set_active(&mut self.state, pos)
    }

    /// Moves focus to the leaf at a place.
    pub fn set_focus(&mut self, pos: NodePos)
        requires
            old(self).wf(),
        ensures
            final(self).wf(),
            final(self)@ == old(self)@.focused_on(pos),
    {
        proof {
            lemma_focused_on_wf(self@, pos);
        }
        state_set_focus(&mut self.state, pos);
    }

    /// The focused leaf.
    pub fn focused_leaf(&self) -> (r: Option<NodePos>)
        requires
            self.wf(),
        ensures
            r is Some <==> self@.focused_leaf() is Some,
            r matches Some(pos) ==> self@.focused_leaf() == Some(
                (pos.surface as nat, pos.node as nat),
            ),
    {
        state_focused_leaf(&self.state)
    }

    /// Appends a tab to the focused leaf.
    pub fn push_to_focused_leaf(&mut self, tab: DockTab)
        requires
            old(self).wf(),
        ensures
            final(self).wf(),
            final(self)@ == old(self)@.pushed(tab),
    {
        proof {
            lemma_pushed_wf(self@, tab);
        }
        state_push(&mut self.state, tab);
    }

    /// Takes the tab at a place out.
    pub fn remove_tab(&mut self, pos: TabPos) -> (r: DockTab)
        requires
            old(self).wf(),
            old(self)@.tab_at(pos) is Some,
        ensures
            final(self).wf(),
            Some(r) == old(self)@.tab_at(pos),
            final(self)@ == old(self)@.without_tab(pos),
            final(self)@.tabs() == old(self)@.tabs().remove(r),
            final(self)@.leaves() == leaves_without(
                old(self)@.leaves(),
                old(self)@.leaf(pos.node_pos())->0,
                pos.tab as int,
            ),
    {
        let r = state_remove_tab(&mut self.state, pos);
        proof {
            lemma_without_tab_tabs(old(self)@, pos);
            lemma_without_tab_leaves(old(self)@, pos);
        }
        r.unwrap()
    }

    /// Takes the leaf at a place out of its tree.
    pub fn remove_leaf(&mut self, pos: NodePos)
        requires
            old(self).wf(),
            old(self)@.leaf(pos) is Some,
        ensures
            final(self).wf(),
            final(self)@ == old(self)@.with_tree(
                pos.surface as int,
                tree_without_leaf(old(self)@.tree(pos.surface as int), pos.node as nat),
            ),
            leaf_taken(
                old(self)@.tree(pos.surface as int),
                pos.node as nat,
                final(self)@.tree(pos.surface as int),
            ),
            final(self)@.leaves() == old(self)@.leaves().remove(old(self)@.leaf(pos)->0),
    {
        state_remove_leaf(&mut self.state, pos);
        proof {
            lemma_leaf_taken_leaves(old(self)@, pos, self@.tree(pos.surface as int));
        }
    }

    /// Appends a tab to the leaf at a place; whether there was one.
    pub fn append_to_leaf(&mut self, pos: NodePos, tab: DockTab) -> (ok: bool)
        requires
            old(self).wf(),
        ensures
            final(self).wf(),
            ok == (old(self)@.leaf(pos) is Some),
            final(self)@ == if old(self)@.leaf(pos) is Some {
                old(self)@.with_leaf(pos, appended(old(self)@.leaf(pos)->0, tab))
            } else {
                old(self)@
            },
    {
        proof {
            if self@.leaf(pos) is Some {
                lemma_with_leaf_wf(self@, pos, appended(self@.leaf(pos)->0, tab));
            }
        }
        state_append(&mut self.state, pos, tab)
    }

    /// Replaces the tabs of the leaf at a place; whether there was one.
    pub fn set_leaf(&mut self, pos: NodePos, tabs: Vec<DockTab>, active: usize) -> (ok: bool)
        requires
            old(self).wf(),
        ensures
            final(self).wf(),
            ok == (old(self)@.leaf(pos) is Some),
            final(self)@ == if old(self)@.leaf(pos) is Some {
                old(self)@.with_leaf(pos, LeafView { tabs: tabs@, active: active as nat })
            } else {
                old(self)@
            },
    {
        proof {
            if self@.leaf(pos) is Some {
                lemma_with_leaf_wf(self@, pos, LeafView { tabs: tabs@, active: active as nat });
            }
        }
        state_set_leaf(&mut self.state, pos, tabs, active)
    }
}

/// Whether nodes make a proper binary tree.
pub open spec fn tree_shaped(nodes: Seq<NodeView>) -> bool {
    &&& nodes.len() > 0 ==> !(nodes[0] is Empty)
    &&& forall|i: int| 0 <= i < nodes.len() ==> #[trigger] node_placed(nodes, i)
}

/// Whether there is a main surface and all trees are proper.
pub open spec fn dock_shaped(v: DockView) -> bool {
    &&& v.has_tree(0)
    &&& forall|s: int| #[trigger] v.has_tree(s) ==> tree_shaped(v.tree(s).nodes)
}

/// A well-formed dock is made of proper trees.
pub proof fn law_wf_is_shaped(v: DockView)
    requires
        v.wf(),
    ensures
        dock_shaped(v),
{
}

fn shape_is_split(n: &NodeShape) -> (r: bool)
    ensures
        r == is_split(n@),
{
    matches!(n, NodeShape::Vertical | NodeShape::Horizontal)
}

fn shape_is_empty(n: &NodeShape) -> (r: bool)
    ensures
        r == (n@ is Empty),
{
    matches!(n, NodeShape::Empty)
}

fn is_node_placed(nodes: &Vec<NodeShape>, i: usize) -> (r: bool)
    requires
        i < nodes@.len(),
    ensures
        r == node_placed(shapes_view(nodes@), i as int),
{
    let ghost v = shapes_view(nodes@);
    assert(forall|k: int| 0 <= k < nodes@.len() ==> #[trigger] v[k] == nodes@[k]@);
    if i > 0 && !shape_is_empty(&nodes[i]) && !shape_is_split(&nodes[(i - 1) / 2]) {
        return false;
    }
    if !shape_is_split(&nodes[i]) {
        return true;
    }
    let len: usize = nodes.len();
    if len < 3 || i > (len - 3) / 2 {
        return false;
    }
    !shape_is_empty(&nodes[2 * i + 1]) && !shape_is_empty(&nodes[2 * i + 2])
}

fn is_tree_shaped(nodes: &Vec<NodeShape>) -> (r: bool)
    ensures
        r == tree_shaped(shapes_view(nodes@)),
{
    let ghost v = shapes_view(nodes@);
    if nodes.len() == 0 {
        return true;
    }
    assert(v[0] == nodes@[0]@);
    if shape_is_empty(&nodes[0]) {
        return false;
    }
    let mut i: usize = 0;
    while i < nodes.len()
        invariant
            i <= nodes@.len(),
            v == shapes_view(nodes@),
            forall|k: int| 0 <= k < i ==> #[trigger] node_placed(v, k),
        decreases nodes@.len() - i,
    {
        if !is_node_placed(nodes, i) {
            assert(!node_placed(v, i as int));
            return false;
        }
        i = i + 1;
    }
    true
}

impl Dock {
    /// Tells whether there is a main surface and all trees are proper.
    pub fn shape_fits(&self) -> (r: bool)
        ensures
            r == dock_shaped(self@),
    {
        if self.nodes(0).is_none() {
            return false;
        }
        let n: usize = self.surfaces();
        let mut s: usize = 0;
        while s < n
            invariant
                s <= n,
                n == self@.surfaces.len(),
                self@.has_tree(0),
                forall|k: int|
                    0 <= k < s && #[trigger] self@.has_tree(k) ==> tree_shaped(self@.tree(k).nodes),
            decreases n - s,
        {
            if let Some(nodes) = self.nodes(s) {
                if !is_tree_shaped(&nodes) {
                    assert(self@.has_tree(s as int));
                    return false;
                }
            }
            s = s + 1;
        }
        true
    }
}

/// A tab that joins a pane stands behind all others there and is the open one.
pub proof fn law_appended_tab_is_open(leaf: LeafView, tab: DockTab, i: int)
    ensures
        appended(leaf, tab).tabs.len() == leaf.tabs.len() + 1,
        appended(leaf, tab).tabs[appended(leaf, tab).active as int] == tab,
        appended(leaf, tab).tabs.last() == tab,
        0 <= i < leaf.tabs.len() ==> appended(leaf, tab).tabs[i] == leaf.tabs[i],
{
}

/// A tab that leaves a pane is the one at that place. The open tab stays open where it
/// stood in front or behind, and one that leaves hands over to its neighbour on the left.
pub proof fn law_tab_leaves_pane(leaf: LeafView, i: int, k: int)
    requires
        0 <= i < leaf.tabs.len(),
        leaf.tabs.len() > 1,
        leaf.active < leaf.tabs.len(),
    ensures
        leaf_without(leaf, i).tabs.len() + 1 == leaf.tabs.len(),
        0 <= k < i ==> leaf_without(leaf, i).tabs[k] == leaf.tabs[k],
        i <= k < leaf_without(leaf, i).tabs.len() ==> leaf_without(leaf, i).tabs[k] == leaf.tabs[k
            + 1],
        leaf_without(leaf, i).active < leaf_without(leaf, i).tabs.len(),
        leaf.active != i ==> leaf_without(leaf, i).tabs[leaf_without(leaf, i).active as int]
            == leaf.tabs[leaf.active as int],
        leaf.active == i && i > 0 ==> leaf_without(leaf, i).tabs[leaf_without(
            leaf,
            i,
        ).active as int] == leaf.tabs[i - 1],
{
}

/// Focus goes to the pane that was asked for and no tab moves; a tab that is opened is
/// the open one of its pane, and no other pane changes.
pub proof fn law_focus_and_open_tab(v: DockView, at: NodePos, pos: TabPos, other: NodePos)
    ensures
        v.leaf(at) is Some ==> v.focused_on(at).focused_leaf() == Some(
            (at.surface as nat, at.node as nat),
        ),
        v.leaf(at) is None ==> v.focused_on(at).focused_leaf() is None,
        v.tab_at(pos) is Some ==> (v.activated(pos).leaf(pos.node_pos()) matches Some(leaf)
            && leaf.active == pos.tab && leaf.tabs == (v.leaf(pos.node_pos())->0).tabs),
        v.tab_at(pos) is Some && other != pos.node_pos() ==> v.activated(pos).leaf(other) == v.leaf(
            other,
        ),
        v.tab_at(pos) is None ==> v.activated(pos) == v,
{
}

} // verus!

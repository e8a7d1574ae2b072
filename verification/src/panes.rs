//! Neighbouring panes, merging and moving between them, cycling through tabs.

use vstd::prelude::*;
use vstd::multiset::Multiset;
use crate::commands::DockDir;
use crate::dock::{shapes_view, Dock, NodePos, NodeShape, TabPos};
use crate::dock_ops::{find_content_leaf, leaf_has_kind, LeafKind};
use crate::tabs::{DockTab, Tab};
#[allow(unused_imports)]
use crate::dock::{leaves_without, lemma_focused_on_tabs, node_placed, DockView, NodeView, TreeView};
#[allow(unused_imports)]
use crate::dock_ops::find_leaf_spec;

verus! {

/// The leftmost leaf at or below a node.
pub open spec fn leftmost_leaf(nodes: Seq<NodeView>, i: int) -> Option<nat>
    decreases
        if i < nodes.len() {
            nodes.len() - i
        } else {
            0
        },
{
    if i < 0 || i >= nodes.len() || nodes[i] is Empty {
        None
    } else if nodes[i] is Leaf {
        Some(i as nat)
    } else {
        leftmost_leaf(nodes, 2 * i + 1)
    }
}

/// Whether stepping in direction `dir` from the given side of a split crosses
/// it.
pub open spec fn crosses(split: NodeView, from_left: bool, dir: DockDir) -> bool {
    match dir {
        DockDir::Right => split is Horizontal && from_left,
        DockDir::Left => split is Horizontal && !from_left,
        DockDir::Down => split is Vertical && from_left,
        DockDir::Up => split is Vertical && !from_left,
    }
}

/// The leaf next to node `i` in direction `dir`: the leftmost leaf across the
/// nearest split above `i` that `dir` crosses.
pub open spec fn neighbor(nodes: Seq<NodeView>, i: int, dir: DockDir) -> Option<nat>
    decreases i,
{
    if i <= 0 {
        None
    } else {
        let parent = (i - 1) / 2;
        let from_left = i == 2 * parent + 1;
        if parent >= nodes.len() {
            None
        } else if crosses(nodes[parent], from_left, dir) {
            leftmost_leaf(nodes, if from_left {
                2 * parent + 2
            } else {
                2 * parent + 1
            })
        } else {
            neighbor(nodes, parent, dir)
        }
    }
}

/// The opposite direction.
pub open spec fn opposite(dir: DockDir) -> DockDir {
    match dir {
        DockDir::Left => DockDir::Right,
        DockDir::Right => DockDir::Left,
        DockDir::Up => DockDir::Down,
        DockDir::Down => DockDir::Up,
    }
}

fn first_leaf_in(nodes: &Vec<NodeShape>, start: usize) -> (r: Option<usize>)
    ensures
        match (leftmost_leaf(shapes_view(nodes@), start as int), r) {
            (Some(a), Some(b)) => a == b,
            (None, None) => true,
            _ => false,
        },
{
    let ghost view = shapes_view(nodes@);
    let mut cur: usize = start;
    loop
        invariant
            view == shapes_view(nodes@),
            leftmost_leaf(view, cur as int) == leftmost_leaf(view, start as int),
        decreases nodes.len() - cur,
    {
        if cur >= nodes.len() {
            return None;
        }
        assert(view[cur as int] == nodes@[cur as int]@);
        match &nodes[cur] {
            NodeShape::Leaf { .. } => {
                return Some(cur);
            },
            NodeShape::Empty => {
                return None;
            },
            _ => {
                if cur < nodes.len() - 1 - cur {
                    cur = 2 * cur + 1;
                } else {
                    assert(leftmost_leaf(view, 2 * cur + 1) is None);
                    return None;
                }
            },
        }
    }
}

/// The leaf next to `current` in direction `dir`, if `current` is not on that
/// edge.
pub fn find_neighbor_leaf(nodes: &Vec<NodeShape>, current: usize, dir: DockDir) -> (r: Option<
    usize,
>)
    ensures
        match (neighbor(shapes_view(nodes@), current as int, dir), r) {
            (Some(a), Some(b)) => a == b,
            (None, None) => true,
            _ => false,
        },
{
    let ghost view = shapes_view(nodes@);
    let mut node: usize = current;
    while node > 0
        invariant
            view == shapes_view(nodes@),
            neighbor(view, node as int, dir) == neighbor(view, current as int, dir),
        decreases node,
    {
        let parent: usize = (node - 1) / 2;
        let was_left: bool = node % 2 == 1;
        assert(was_left == (node == 2 * parent + 1));
        if parent >= nodes.len() {
            return None;
        }
        assert(view[parent as int] == nodes@[parent as int]@);
        let across: bool = match (&nodes[parent], dir) {
            (NodeShape::Horizontal, DockDir::Right) => was_left,
            (NodeShape::Horizontal, DockDir::Left) => !was_left,
            (NodeShape::Vertical, DockDir::Down) => was_left,
            (NodeShape::Vertical, DockDir::Up) => !was_left,
            _ => false,
        };
        if across {
            let sibling: usize = if was_left {
                if node == usize::MAX {
                    return None;
                }
                node + 1
            } else {
                node - 1
            };
            return first_leaf_in(nodes, sibling);
        }
        node = parent;
    }
    None
}

proof fn lemma_leftmost(tree: TreeView, i: int)
    requires
        tree.wf(),
        0 <= i < tree.nodes.len(),
        !(tree.nodes[i] is Empty),
    ensures
        leftmost_leaf(tree.nodes, i) matches Some(leaf) && i <= leaf < tree.nodes.len()
            && tree.nodes[leaf as int] is Leaf,
    decreases tree.nodes.len() - i,
{
    if !(tree.nodes[i] is Leaf) {
        assert(node_placed(tree.nodes, i));
        lemma_leftmost(tree, 2 * i + 1);
    }
}

/// Whatever lies next door is a leaf of the tree.
pub proof fn law_neighbor_is_leaf(tree: TreeView, i: int, dir: DockDir)
    requires
        tree.wf(),
        0 <= i < tree.nodes.len(),
        !(tree.nodes[i] is Empty),
    ensures
        neighbor(tree.nodes, i, dir) matches Some(n) ==> tree.leaf(n as int) is Some,
    decreases i,
{
    if i > 0 {
        let parent = (i - 1) / 2;
        assert(node_placed(tree.nodes, i));
        assert(node_placed(tree.nodes, parent));
        let from_left = i == 2 * parent + 1;
        if crosses(tree.nodes[parent], from_left, dir) {
            lemma_leftmost(tree, if from_left {
                2 * parent + 2
            } else {
                2 * parent + 1
            });
        } else {
            law_neighbor_is_leaf(tree, parent, dir);
        }
    }
}

/// A pane with a crossing split above it, at or above node `i`, has a neighbour.
proof fn lemma_way_from_leftmost(tree: TreeView, top: int, i: int, dir: DockDir)
    requires
        tree.wf(),
        0 <= top <= i < tree.nodes.len(),
        leftmost_leaf(tree.nodes, i) == leftmost_leaf(tree.nodes, top),
        leftmost_leaf(tree.nodes, i) is Some,
        neighbor(tree.nodes, i, dir) is Some,
    ensures
        neighbor(tree.nodes, leftmost_leaf(tree.nodes, top)->0 as int, dir) is Some,
    decreases tree.nodes.len() - i,
{
    if !(tree.nodes[i] is Leaf) {
        assert(node_placed(tree.nodes, i));
        let child = 2 * i + 1;
        assert((child - 1) / 2 == i);
        if crosses(tree.nodes[i], true, dir) {
            lemma_leftmost(tree, 2 * i + 2);
            assert(neighbor(tree.nodes, child, dir) == leftmost_leaf(tree.nodes, 2 * i + 2));
        } else {
            assert(neighbor(tree.nodes, child, dir) == neighbor(tree.nodes, i, dir));
        }
        lemma_leftmost(tree, child);
        lemma_way_from_leftmost(tree, top, child, dir);
    }
}

/// From a pane reached in one direction there is a way in the opposite one.
pub proof fn law_neighbor_has_way_back(tree: TreeView, i: int, dir: DockDir)
    requires
        tree.wf(),
        0 <= i < tree.nodes.len(),
        !(tree.nodes[i] is Empty),
        neighbor(tree.nodes, i, dir) is Some,
    ensures
        neighbor(tree.nodes, neighbor(tree.nodes, i, dir)->0 as int, opposite(dir)) is Some,
    decreases i,
{
    let parent = (i - 1) / 2;
    assert(node_placed(tree.nodes, i));
    assert(node_placed(tree.nodes, parent));
    let from_left = i == 2 * parent + 1;
    if crosses(tree.nodes[parent], from_left, dir) {
        let sibling = if from_left {
            2 * parent + 2
        } else {
            2 * parent + 1
        };
        assert((sibling - 1) / 2 == parent);
        lemma_leftmost(tree, sibling);
        lemma_leftmost(tree, i);
        assert(crosses(tree.nodes[parent], !from_left, opposite(dir)));
        assert(neighbor(tree.nodes, sibling, opposite(dir)) == leftmost_leaf(tree.nodes, i));
        lemma_way_from_leftmost(tree, sibling, sibling, opposite(dir));
    } else {
        law_neighbor_has_way_back(tree, parent, dir);
    }
}

/// The open tab of the focused leaf.
pub open spec fn focused_tab(v: DockView) -> Option<DockTab> {
    match v.focused_leaf() {
        Some((s, n)) => match v.tree(s as int).leaf(n as int) {
            Some(leaf) => if leaf.active < leaf.tabs.len() {
                Some(leaf.tabs[leaf.active as int])
            } else {
                None
            },
            None => None,
        },
        None => None,
    }
}

/// The open tab of the focused leaf.
pub fn active_focused(dock: &Dock) -> (r: Option<DockTab>)
    requires
        dock.wf(),
    ensures
        r == focused_tab(dock@),
{
    match dock.focused_leaf() {
        Some(pos) => match dock.leaf(pos) {
            Some(leaf) => if leaf.1 < leaf.0.len() {
                Some(leaf.0[leaf.1])
            } else {
                None
            },
            None => None,
        },
        None => None,
    }
}

/// Whether the focused leaf was remembered if it holds content.
pub open spec fn content_leaf_tracked(
    v: DockView,
    before: Option<NodePos>,
    after: Option<NodePos>,
) -> bool {
    match v.focused_leaf() {
        Some((s, n)) => if v.tree(s as int).leaf(n as int) matches Some(leaf)
            && crate::dock_ops::some_content(leaf.tabs) {
            after matches Some(pos) && pos.surface == s && pos.node == n
        } else {
            after == before
        },
        None => after == before,
    }
}

/// Remembers the focused leaf if it holds content.
pub fn track_content_leaf(dock: &Dock, last: &mut Option<NodePos>)
    requires
        dock.wf(),
    ensures
        content_leaf_tracked(dock@, *old(last), *final(last)),
{
    if let Some(pos) = dock.focused_leaf() {
        if leaf_has_kind(dock, LeafKind::Content, pos) {
            *last = Some(pos);
        }
    }
}

/// The leaf that focus goes to when a file is opened from a tool pane: the
/// remembered one if it is still a leaf, else the first with content.
pub open spec fn content_target(v: DockView, last: Option<NodePos>) -> Option<NodePos> {
    match last {
        Some(pos) => if v.leaf(pos) is Some {
            Some(pos)
        } else {
            find_leaf_spec(v, LeafKind::Content)
        },
        None => find_leaf_spec(v, LeafKind::Content),
    }
}

/// Moves focus to the editing area.
pub fn focus_content_leaf(dock: &mut Dock, last: &mut Option<NodePos>)
    requires
        old(dock).wf(),
    ensures
        final(dock).wf(),
        match content_target(old(dock)@, *old(last)) {
            Some(pos) => *final(last) == Some(pos) && final(dock)@ == old(dock)@.focused_on(pos),
            None => *final(last) == *old(last) && final(dock)@ == old(dock)@,
        },
        final(dock)@.tabs() == old(dock)@.tabs(),
{
    if let Some(pos) = *last {
        if dock.leaf(pos).is_some() {
            dock.set_focus(pos);
            proof {
                lemma_focused_on_tabs(old(dock)@, pos);
            }
            return;
        }
    }
    if let Some(pos) = find_content_leaf(dock) {
        *last = Some(pos);
        dock.set_focus(pos);
        proof {
            lemma_focused_on_tabs(old(dock)@, pos);
        }
    }
}

/// Place of the first `needle` among tabs.
pub open spec fn first_index(tabs: Seq<DockTab>, needle: DockTab) -> Option<nat>
    decreases tabs.len(),
{
    if tabs.len() == 0 {
        None
    } else if tabs[0] == needle {
        Some(0)
    } else {
        match first_index(tabs.drop_first(), needle) {
            Some(i) => Some(i + 1),
            None => None,
        }
    }
}

proof fn lemma_first_index(tabs: Seq<DockTab>, needle: DockTab, i: int)
    requires
        0 <= i < tabs.len(),
        tabs[i] == needle,
        forall|j: int| 0 <= j < i ==> tabs[j] != needle,
    ensures
        first_index(tabs, needle) == Some(i as nat),
    decreases tabs.len(),
{
    if i > 0 {
        lemma_first_index(tabs.drop_first(), needle, i - 1);
    }
}

proof fn lemma_no_first_index(tabs: Seq<DockTab>, needle: DockTab)
    requires
        forall|j: int| 0 <= j < tabs.len() ==> tabs[j] != needle,
    ensures
        first_index(tabs, needle) is None,
    decreases tabs.len(),
{
    if tabs.len() > 0 {
        lemma_no_first_index(tabs.drop_first(), needle);
    }
}

fn position_of(tabs: &Vec<DockTab>, needle: DockTab) -> (r: Option<usize>)
    ensures
        match (first_index(tabs@, needle), r) {
            (Some(a), Some(b)) => a == b && b < tabs@.len() && tabs@[b as int] == needle,
            (None, None) => !tabs@.contains(needle),
            _ => false,
        },
{
    let mut i: usize = 0;
    while i < tabs.len()
        invariant
            i <= tabs.len(),
            forall|j: int| 0 <= j < i ==> tabs@[j] != needle,
        decreases tabs.len() - i,
    {
        if tabs[i] == needle {
            proof {
                lemma_first_index(tabs@, needle, i as int);
            }
            return Some(i);
        }
        i = i + 1;
    }
    proof {
        lemma_no_first_index(tabs@, needle);
    }
    None
}

/// The placeholder page as a dock item.
pub open spec fn welcome() -> DockTab {
    DockTab::Outer(Tab::Welcome)
}

/// The dock after the placeholder page left a leaf, if it was in it.
pub open spec fn welcome_removed(v: DockView, pos: NodePos) -> DockView {
    match v.leaf(pos) {
        Some(leaf) => match first_index(leaf.tabs, welcome()) {
            Some(i) => v.without_tab(
                TabPos { surface: pos.surface, node: pos.node, tab: i as usize },
            ),
            None => v,
        },
        None => v,
    }
}

/// Takes the placeholder page out of a leaf, so that it steps aside for a real
/// tab.
pub fn remove_welcome_from_leaf(dock: &mut Dock, pos: NodePos)
    requires
        old(dock).wf(),
    ensures
        final(dock).wf(),
        final(dock)@ == welcome_removed(old(dock)@, pos),
        final(dock)@.tabs() == old(dock)@.tabs() || final(dock)@.tabs() == old(
            dock,
        )@.tabs().remove(welcome()),
        final(dock)@.leaves() == (match old(dock)@.leaf(pos) {
            Some(leaf) => match first_index(leaf.tabs, welcome()) {
                Some(i) => leaves_without(old(dock)@.leaves(), leaf, i as int),
                None => old(dock)@.leaves(),
            },
            None => old(dock)@.leaves(),
        }),
{
    if let Some(leaf) = dock.leaf(pos) {
        if let Some(i) = position_of(&leaf.0, DockTab::Outer(Tab::Welcome)) {
            dock.remove_tab(TabPos { surface: pos.surface, node: pos.node, tab: i });
        }
    }
}

/// Of two panes side by side the right one lies to the right of the left one and the
/// left one to the left of the right one; of two panes one above the other the lower lies
/// below the upper and the upper above the lower.
pub proof fn law_panes_beside_each_other(nodes: Seq<NodeView>, parent: int)
    requires
        0 <= parent,
        2 * parent + 2 < nodes.len(),
        nodes[2 * parent + 1] is Leaf,
        nodes[2 * parent + 2] is Leaf,
    ensures
        nodes[parent] is Horizontal ==> neighbor(nodes, 2 * parent + 1, DockDir::Right) == Some(
            (2 * parent + 2) as nat,
        ) && neighbor(nodes, 2 * parent + 2, DockDir::Left) == Some((2 * parent + 1) as nat),
        nodes[parent] is Vertical ==> neighbor(nodes, 2 * parent + 1, DockDir::Down) == Some(
            (2 * parent + 2) as nat,
        ) && neighbor(nodes, 2 * parent + 2, DockDir::Up) == Some((2 * parent + 1) as nat),
{
    assert((2 * parent + 1 - 1) / 2 == parent);
    assert((2 * parent + 2 - 1) / 2 == parent);
}

/// At the outer edge of its split, or across the other kind of split, a pane's
/// neighbour is that of the whole split; the root has none.
pub proof fn law_neighbor_of_edge_is_that_of_split(nodes: Seq<NodeView>, parent: int)
    requires
        0 <= parent < nodes.len(),
    ensures
        neighbor(nodes, 0, DockDir::Left) is None && neighbor(nodes, 0, DockDir::Right) is None
            && neighbor(nodes, 0, DockDir::Up) is None && neighbor(nodes, 0, DockDir::Down) is None,
        neighbor(nodes, 2 * parent + 1, DockDir::Left) == neighbor(nodes, parent, DockDir::Left),
        neighbor(nodes, 2 * parent + 1, DockDir::Up) == neighbor(nodes, parent, DockDir::Up),
        neighbor(nodes, 2 * parent + 2, DockDir::Right) == neighbor(nodes, parent, DockDir::Right),
        neighbor(nodes, 2 * parent + 2, DockDir::Down) == neighbor(nodes, parent, DockDir::Down),
        nodes[parent] is Vertical ==> neighbor(nodes, 2 * parent + 1, DockDir::Right) == neighbor(
            nodes,
            parent,
            DockDir::Right,
        ) && neighbor(nodes, 2 * parent + 2, DockDir::Left) == neighbor(
            nodes,
            parent,
            DockDir::Left,
        ),
        nodes[parent] is Horizontal ==> neighbor(nodes, 2 * parent + 1, DockDir::Down) == neighbor(
            nodes,
            parent,
            DockDir::Down,
        ) && neighbor(nodes, 2 * parent + 2, DockDir::Up) == neighbor(nodes, parent, DockDir::Up),
{
    assert((2 * parent + 1 - 1) / 2 == parent);
    assert((2 * parent + 2 - 1) / 2 == parent);
}

/// The pane that is reached across a split is the first one behind it: the left or upper
/// part of what is split there.
pub proof fn law_first_pane_of_split(nodes: Seq<NodeView>, i: int)
    requires
        0 <= i < nodes.len(),
    ensures
        nodes[i] is Leaf ==> leftmost_leaf(nodes, i) == Some(i as nat),
        nodes[i] is Horizontal || nodes[i] is Vertical ==> leftmost_leaf(nodes, i)
            == leftmost_leaf(nodes, 2 * i + 1),
        nodes[i] is Empty ==> leftmost_leaf(nodes, i) is None,
{
}

/// The pane with the editing area that had the focus last gets it again while it is
/// there; else the first pane with content does. A pane is remembered only while it has
/// the focus and holds content.
pub proof fn law_content_pane_is_remembered(
    v: DockView,
    before: Option<NodePos>,
    after: Option<NodePos>,
    pos: NodePos,
)
    requires
        content_leaf_tracked(v, before, after),
    ensures
        v.focused_leaf() is None ==> after == before,
        v.focused_leaf() == Some((pos.surface as nat, pos.node as nat)) && v.has_tree(
            pos.surface as int,
        ) ==> (if v.leaf(pos) matches Some(leaf) && exists|i: int|
            0 <= i < leaf.tabs.len() && crate::tabs::content_item(#[trigger] leaf.tabs[i]) {
            after == Some(pos)
        } else {
            after == before
        }),
        v.leaf(pos) is Some ==> content_target(v, Some(pos)) == Some(pos),
        v.leaf(pos) is None ==> content_target(v, Some(pos)) == content_target(v, None),
        content_target(v, None) matches Some(at) ==> (v.leaf(at) matches Some(leaf)
            && exists|i: int|
            0 <= i < leaf.tabs.len() && crate::tabs::content_item(#[trigger] leaf.tabs[i])),
{
    if let Some(at) = content_target(v, None) {
        assert(crate::dock_ops::first_leaf_of(v, LeafKind::Content, at));
        assert(crate::dock_ops::leaf_at_is(v, LeafKind::Content, at));
    }
}

} // verus!

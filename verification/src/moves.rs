//! Moving tabs between panes, cycling through them, hiding the tool pane, and
//! the inner docks of workspaces.

use vstd::prelude::*;
use vstd::multiset::Multiset;
use crate::commands::DockDir;
use crate::dock::{shapes_view, Dock, NodePos, NodeShape, TabPos};
use crate::dock_ops::SplitRequest;
use crate::panes::{active_focused, find_neighbor_leaf, remove_welcome_from_leaf};
use crate::tabs::{DockTab, FileId, Tab, TabFocus, WorkspaceId};
#[allow(unused_imports)]
use crate::dock::{
    appended, leaf_without, lemma_focused_on_leaves, lemma_focused_on_tabs,
    lemma_surfaces_tabs_update, lemma_with_leaf_leaves, lemma_with_leaf_tabs, node_tabs, slot_tabs,
    tree_tabs, tree_without_leaf, DockView, LeafView, NodeView, TreeView,
};
#[allow(unused_imports)]
use crate::dock_ops::main_root;
#[allow(unused_imports)]
use crate::panes::{
    first_index, focused_tab, law_neighbor_is_leaf, neighbor, welcome, welcome_removed,
};

verus! {

/// The tabs of a node in order.
pub open spec fn node_list(node: NodeView) -> Seq<DockTab> {
    match node {
        NodeView::Leaf(leaf) => leaf.tabs,
        _ => seq![],
    }
}

/// The tabs of a tree, node by node.
pub open spec fn tree_list(nodes: Seq<NodeView>) -> Seq<DockTab>
    decreases nodes.len(),
{
    if nodes.len() == 0 {
        seq![]
    } else {
        tree_list(nodes.drop_last()) + node_list(nodes.last())
    }
}

/// The tabs of a surface slot, node by node.
pub open spec fn slot_list(slot: Option<TreeView>) -> Seq<DockTab> {
    match slot {
        Some(tree) => tree_list(tree.nodes),
        None => seq![],
    }
}

/// The tabs of several surfaces, one surface after the other.
pub open spec fn surfaces_list(surfaces: Seq<Option<TreeView>>) -> Seq<DockTab>
    decreases surfaces.len(),
{
    if surfaces.len() == 0 {
        seq![]
    } else {
        surfaces_list(surfaces.drop_last()) + slot_list(surfaces.last())
    }
}

/// All tabs of a dock in the order in which it is walked.
pub open spec fn tab_list(v: DockView) -> Seq<DockTab> {
    surfaces_list(v.surfaces)
}

proof fn lemma_tree_list(nodes: Seq<NodeView>)
    ensures
        tree_list(nodes).to_multiset() == tree_tabs(nodes),
    decreases nodes.len(),
{
    broadcast use vstd::seq_lib::group_to_multiset_ensures;

    if nodes.len() == 0 {
        assert(tree_list(nodes).to_multiset() =~= tree_tabs(nodes));
    } else {
        lemma_tree_list(nodes.drop_last());
        vstd::seq_lib::lemma_multiset_commutative(
            tree_list(nodes.drop_last()),
            node_list(nodes.last()),
        );
        assert(node_list(nodes.last()).to_multiset() =~= node_tabs(nodes.last()));
    }
}

/// Walking a dock meets each of its tabs as often as it holds it.
pub proof fn law_list_has_all_tabs(v: DockView)
    ensures
        tab_list(v).to_multiset() == v.tabs(),
    decreases v.surfaces.len(),
{
    broadcast use vstd::seq_lib::group_to_multiset_ensures;

    if v.surfaces.len() == 0 {
        assert(tab_list(v).to_multiset() =~= v.tabs());
    } else {
        let rest = DockView { surfaces: v.surfaces.drop_last(), ..v };
        law_list_has_all_tabs(rest);
        vstd::seq_lib::lemma_multiset_commutative(
            surfaces_list(v.surfaces.drop_last()),
            slot_list(v.surfaces.last()),
        );
        match v.surfaces.last() {
            Some(tree) => {
                lemma_tree_list(tree.nodes);
            },
            None => {
                assert(slot_list(None).to_multiset() =~= slot_tabs(None));
            },
        }
    }
}

/// All tabs of the dock in order.
pub fn all_tabs(dock: &Dock) -> (r: Vec<DockTab>)
    ensures
        r@ == tab_list(dock@),
{
    let mut out: Vec<DockTab> = Vec::new();
    let count: usize = dock.surfaces();
    let mut s: usize = 0;
    assert(dock@.surfaces.take(0) =~= seq![]);
    while s < count
        invariant
            s <= count,
            count == dock@.surfaces.len(),
            out@ == surfaces_list(dock@.surfaces.take(s as int)),
        decreases count - s,
    {
        let ghost before = out@;
        match dock.nodes(s) {
            Some(mut nodes) => {
                let ghost all = shapes_view(nodes@);
                let total: usize = nodes.len();
                let mut n: usize = 0;
                assert(all.take(0) =~= seq![]);
                assert(before + tree_list(all.take(0)) =~= before);
                while n < total
                    invariant
                        n <= total,
                        total == nodes@.len(),
                        all == shapes_view(nodes@),
                        out@ == before + tree_list(all.take(n as int)),
                    decreases total - n,
                {
                    assert(all[n as int] == nodes@[n as int]@);
                    let ghost sofar = out@;
                    match &nodes[n] {
                        NodeShape::Leaf { tabs, active: _ } => {
                            let mut t: usize = 0;
                            assert(tabs@.take(0) =~= seq![]);
                            assert(sofar + tabs@.take(0) =~= sofar);
                            while t < tabs.len()
                                invariant
                                    t <= tabs.len(),
                                    out@ == sofar + tabs@.take(t as int),
                                decreases tabs.len() - t,
                            {
                                out.push(tabs[t]);
                                assert(tabs@.take(t as int + 1) =~= tabs@.take(t as int).push(
                                    tabs@[t as int],
                                ));
                                t = t + 1;
                                assert(out@ =~= sofar + tabs@.take(t as int));
                            }
                            assert(tabs@.take(tabs@.len() as int) =~= tabs@);
                        },
                        _ => {
                            assert(sofar + node_list(all[n as int]) =~= sofar);
                        },
                    }
                    assert(out@ == sofar + node_list(all[n as int]));
                    assert(all.take(n as int + 1).drop_last() =~= all.take(n as int));
                    n = n + 1;
                    assert(out@ =~= before + tree_list(all.take(n as int)));
                }
                assert(all.take(total as int) =~= all);
                assert(out@ == before + slot_list(dock@.surfaces[s as int]));
            },
            None => {
                assert(before + slot_list(dock@.surfaces[s as int]) =~= before);
            },
        }
        assert(dock@.surfaces.take(s as int + 1).drop_last() =~= dock@.surfaces.take(s as int));
        s = s + 1;
    }
    assert(dock@.surfaces.take(count as int) =~= dock@.surfaces);
    out
}

/// Which tab comes after `current` of `count` when cycling.
pub open spec fn cycled(current: int, count: int, forward: bool) -> int {
    if forward {
        if current + 1 == count {
            0
        } else {
            current + 1
        }
    } else if current == 0 {
        count - 1
    } else {
        current - 1
    }
}

/// Cycling one way and back ends at the tab where it began.
pub proof fn law_cycle_back(current: int, count: int, forward: bool)
    requires
        0 <= current < count,
    ensures
        cycled(cycled(current, count, forward), count, !forward) == current,
        0 <= cycled(current, count, forward) < count,
{
}

/// Cycling through all tabs ends at the tab where it began.
pub proof fn law_cycle_visits_all(current: int, count: int, steps: nat)
    requires
        0 <= current < count,
    ensures
        cycled_times(current, count, steps) == (current + steps) % count,
    decreases steps,
{
    if steps > 0 {
        law_cycle_visits_all(current, count, (steps - 1) as nat);
        let prev = (current + steps - 1) % count;
        assert((current + steps) % count == cycled(prev, count, true)) by {
            vstd::arithmetic::div_mod::lemma_add_mod_noop(current + steps - 1, 1, count);
            if prev + 1 < count {
                vstd::arithmetic::div_mod::lemma_small_mod((prev + 1) as nat, count as nat);
                if count == 1 {
                } else {
                    vstd::arithmetic::div_mod::lemma_small_mod(1, count as nat);
                }
            } else {
                vstd::arithmetic::div_mod::lemma_mod_self_0(count);
                if count > 1 {
                    vstd::arithmetic::div_mod::lemma_small_mod(1, count as nat);
                }
            }
        }
    } else {
        vstd::arithmetic::div_mod::lemma_small_mod(current as nat, count as nat);
    }
}

/// The tab reached after cycling forward a number of times.
pub open spec fn cycled_times(current: int, count: int, steps: nat) -> int
    decreases steps,
{
    if steps == 0 {
        current
    } else {
        cycled(cycled_times(current, count, (steps - 1) as nat), count, true)
    }
}

/// The dock after the leaf at a place was cycled.
pub open spec fn leaf_cycled(v: DockView, pos: NodePos, forward: bool) -> DockView {
    match v.leaf(pos) {
        Some(leaf) => if leaf.tabs.len() < 2 {
            v
        } else {
            let current = if leaf.active < leaf.tabs.len() {
                leaf.active as int
            } else {
                leaf.tabs.len() - 1
            };
            v.with_leaf(
                pos,
                LeafView {
                    active: cycled(current, leaf.tabs.len() as int, forward) as nat,
                    ..leaf
                },
            )
        },
        None => v,
    }
}

fn cycle_leaf(dock: &mut Dock, pos: NodePos, forward: bool)
    requires
        old(dock).wf(),
    ensures
        final(dock).wf(),
        final(dock)@ == leaf_cycled(old(dock)@, pos, forward),
{
    if let Some(leaf) = dock.leaf(pos) {
        let count: usize = leaf.0.len();
        if count < 2 {
            return;
        }
        let current: usize = if leaf.1 < count {
            leaf.1
        } else {
            count - 1
        };
        let next: usize = if forward {
            if current + 1 == count {
                0
            } else {
                current + 1
            }
        } else if current == 0 {
            count - 1
        } else {
            current - 1
        };
        dock.set_active_tab(TabPos { surface: pos.surface, node: pos.node, tab: next });
    }
}

/// Opens the next or previous tab of the focused leaf.
pub fn cycle_outer_focused_leaf(dock: &mut Dock, forward: bool)
    requires
        old(dock).wf(),
    ensures
        final(dock).wf(),
        old(dock)@.focused_leaf() is None ==> final(dock)@ == old(dock)@,
        forall|pos: NodePos|
            old(dock)@.focused_leaf() == Some((pos.surface as nat, pos.node as nat))
                ==> final(dock)@ == #[trigger] leaf_cycled(old(dock)@, pos, forward),
{
    if let Some(pos) = dock.focused_leaf() {
        cycle_leaf(dock, pos, forward);
    }
}

/// Opens the next or previous tab of a workspace's focused leaf, or of its
/// root where no leaf is focused.
pub fn cycle_workspace_focused_leaf(dock: &mut Dock, forward: bool)
    requires
        old(dock).wf(),
    ensures
        final(dock).wf(),
        old(dock)@.focused_leaf() is None ==> final(dock)@ == leaf_cycled(
            old(dock)@,
            main_root(),
            forward,
        ),
        forall|pos: NodePos|
            old(dock)@.focused_leaf() == Some((pos.surface as nat, pos.node as nat))
                ==> final(dock)@ == #[trigger] leaf_cycled(old(dock)@, pos, forward),
{
    let pos: NodePos = match dock.focused_leaf() {
        Some(pos) => pos,
        None => NodePos { surface: 0, node: 0 },
    };
    cycle_leaf(dock, pos, forward);
}

/// Where the tab-bar focus goes when it is toggled: from a workspace to the
/// outer dock, and from the outer dock into the workspace that is open in it.
pub open spec fn focus_toggled(focus: TabFocus, v: DockView) -> TabFocus {
    match focus {
        TabFocus::Workspace(_) => TabFocus::Outer,
        TabFocus::Outer => match focused_tab(v) {
            Some(DockTab::Outer(Tab::Workspace(id))) => TabFocus::Workspace(id),
            _ => TabFocus::Outer,
        },
    }
}

/// Toggling twice over an open workspace ends where it began.
pub proof fn law_focus_toggle_back(id: WorkspaceId, v: DockView)
    requires
        focused_tab(v) == Some(DockTab::Outer(Tab::Workspace(id))),
    ensures
        focus_toggled(focus_toggled(TabFocus::Outer, v), v) == TabFocus::Outer,
        focus_toggled(focus_toggled(TabFocus::Workspace(id), v), v) == TabFocus::Workspace(id),
{
}

/// Toggles between the outer tab bar and that of the open workspace.
pub fn toggle_tab_focus(focus: TabFocus, dock: &Dock) -> (r: TabFocus)
    requires
        dock.wf(),
    ensures
        r == focus_toggled(focus, dock@),
{
    match focus {
        TabFocus::Workspace(_) => TabFocus::Outer,
        TabFocus::Outer => match active_focused(dock) {
            Some(DockTab::Outer(Tab::Workspace(id))) => TabFocus::Workspace(id),
            _ => TabFocus::Outer,
        },
    }
}

/// A leaf with several tabs appended one by one.
pub open spec fn appended_all(leaf: LeafView, tabs: Seq<DockTab>) -> LeafView
    decreases tabs.len(),
{
    if tabs.len() == 0 {
        leaf
    } else {
        appended(appended_all(leaf, tabs.drop_last()), tabs.last())
    }
}

proof fn lemma_appended_all(leaf: LeafView, tabs: Seq<DockTab>)
    ensures
        appended_all(leaf, tabs).tabs == leaf.tabs + tabs,
        tabs.len() > 0 ==> appended_all(leaf, tabs).active == leaf.tabs.len() + tabs.len() - 1,
    decreases tabs.len(),
{
    if tabs.len() > 0 {
        lemma_appended_all(leaf, tabs.drop_last());
        assert(appended_all(leaf, tabs).tabs =~= leaf.tabs + tabs);
    } else {
        assert(leaf.tabs + tabs =~= leaf.tabs);
    }
}

/// Whether a tab other than the placeholder page is among the tabs.
pub open spec fn has_real_tab(tabs: Seq<DockTab>) -> bool {
    exists|i: int| 0 <= i < tabs.len() && #[trigger] tabs[i] != welcome()
}

/// The dock after focus went to the first place of a tab, if it has one.
pub open spec fn refocused(v: DockView, tab: DockTab) -> DockView {
    match v.find(tab) {
        Some(pos) => v.focused_on(pos.node_pos()),
        None => v,
    }
}

/// The dock after `tabs` arrived in the leaf at `target`: they are appended,
/// and the placeholder page steps aside if one of them is a real tab.
pub open spec fn arrived(v: DockView, target: NodePos, tabs: Seq<DockTab>) -> DockView {
    let w = v.with_leaf(target, appended_all(v.leaf(target)->0, tabs));
    if has_real_tab(tabs) {
        welcome_removed(w, target)
    } else {
        w
    }
}

/// A leaf after `tabs` arrived in it: they are appended, and the placeholder page
/// steps aside if one of them is a real tab.
pub open spec fn received(leaf: LeafView, tabs: Seq<DockTab>) -> LeafView {
    let full = appended_all(leaf, tabs);
    if has_real_tab(tabs) {
        match first_index(full.tabs, welcome()) {
            Some(i) => leaf_without(full, i as int),
            None => full,
        }
    } else {
        full
    }
}

/// The leaves of a dock after one was poured into another.
pub open spec fn leaves_merged(
    leaves: Multiset<LeafView>,
    source: LeafView,
    target: LeafView,
) -> Multiset<LeafView> {
    leaves.remove(source).remove(target).insert(received(target, source.tabs))
}

/// Which tab of a leaf moves: the open one, or the last where none is open.
pub open spec fn moving_index(leaf: LeafView) -> int {
    if leaf.active < leaf.tabs.len() {
        leaf.active as int
    } else {
        leaf.tabs.len() - 1
    }
}

/// A leaf that the moving tab has left. The tab behind it is the open one then,
/// or the last.
pub open spec fn moved_from(leaf: LeafView) -> LeafView {
    let rest = leaf.tabs.remove(moving_index(leaf));
    LeafView {
        tabs: rest,
        active: if rest.len() == 0 {
            leaf.active
        } else if moving_index(leaf) < rest.len() {
            moving_index(leaf) as nat
        } else {
            (rest.len() - 1) as nat
        },
    }
}

/// The leaves of a dock after the open tab of one moved to another. A leaf that
/// loses its last tab goes.
pub open spec fn leaves_moved(
    leaves: Multiset<LeafView>,
    source: LeafView,
    target: LeafView,
) -> Multiset<LeafView> {
    let there = leaves.remove(source).remove(target).insert(
        received(target, seq![source.tabs[moving_index(source)]]),
    );
    if source.tabs.len() == 1 {
        there
    } else {
        there.insert(moved_from(source))
    }
}

/// The dock after a leaf went out of its tree.
pub open spec fn leaf_gone(v: DockView, pos: NodePos) -> DockView {
    v.with_tree(
        pos.surface as int,
        tree_without_leaf(v.tree(pos.surface as int), pos.node as nat),
    )
}

/// The dock after all tabs of one leaf were poured into another and the first
/// of them got the focus. A leaf is not merged with itself, and one without
/// tabs stays.
pub open spec fn merged(v: DockView, source: NodePos, target: NodePos) -> DockView {
    match v.leaf(source) {
        Some(leaf) => if source == target || leaf.tabs.len() == 0 {
            v
        } else {
            let drained = v.with_leaf(source, LeafView { tabs: seq![], active: leaf.active });
            refocused(leaf_gone(arrived(drained, target, leaf.tabs), source), leaf.tabs[0])
        },
        None => v,
    }
}

pub(crate) fn append_all(dock: &mut Dock, target: NodePos, tabs: &Vec<DockTab>)
    requires
        old(dock).wf(),
        old(dock)@.leaf(target) is Some,
    ensures
        final(dock).wf(),
        final(dock)@ == old(dock)@.with_leaf(
            target,
            appended_all(old(dock)@.leaf(target)->0, tabs@),
        ),
{
    let mut i: usize = 0;
    let ghost leaf = dock@.leaf(target)->0;
    assert(tabs@.take(0) =~= seq![]);
    assert(dock@ =~= dock@.with_leaf(target, leaf)) by {
        let s = target.surface as int;
        assert(dock@.tree(s).nodes.update(target.node as int, NodeView::Leaf(leaf))
            =~= dock@.tree(s).nodes);
        assert(dock@.with_leaf(target, leaf).surfaces =~= dock@.surfaces);
    }
    while i < tabs.len()
        invariant
            i <= tabs.len(),
            dock.wf(),
            old(dock)@.leaf(target) == Some(leaf),
            dock@ == old(dock)@.with_leaf(target, appended_all(leaf, tabs@.take(i as int))),
            dock@.leaf(target) == Some(appended_all(leaf, tabs@.take(i as int))),
        decreases tabs.len() - i,
    {
        let ghost before = dock@;
        dock.append_to_leaf(target, tabs[i]);
        assert(tabs@.take(i as int + 1).drop_last() =~= tabs@.take(i as int));
        i = i + 1;
        let ghost now = appended_all(leaf, tabs@.take(i as int));
        assert(dock@ == before.with_leaf(target, now));
        assert(before.with_leaf(target, now) =~= old(dock)@.with_leaf(target, now)) by {
            let s = target.surface as int;
            assert(before.tree(s).nodes.update(target.node as int, NodeView::Leaf(now))
                =~= old(dock)@.tree(s).nodes.update(target.node as int, NodeView::Leaf(now)));
            assert(before.with_leaf(target, now).surfaces =~= old(dock)@.with_leaf(
                target,
                now,
            ).surfaces);
        }
    }
    assert(tabs@.take(tabs@.len() as int) =~= tabs@);
}

fn any_real(tabs: &Vec<DockTab>) -> (r: bool)
    ensures
        r == has_real_tab(tabs@),
{
    let mut i: usize = 0;
    while i < tabs.len()
        invariant
            i <= tabs.len(),
            forall|j: int| 0 <= j < i ==> tabs@[j] == welcome(),
        decreases tabs.len() - i,
    {
        if tabs[i] != DockTab::Outer(Tab::Welcome) {
            assert(tabs@[i as int] != welcome());
            return true;
        }
        i = i + 1;
    }
    false
}

proof fn lemma_first_index_bound(tabs: Seq<DockTab>, needle: DockTab)
    ensures
        first_index(tabs, needle) matches Some(i) ==> i < tabs.len() && tabs[i as int] == needle,
    decreases tabs.len(),
{
    if tabs.len() > 0 && tabs[0] != needle {
        lemma_first_index_bound(tabs.drop_first(), needle);
    }
}

proof fn lemma_two_leaves(v: DockView, source: NodePos, target: NodePos)
    requires
        source != target,
        v.leaf(source) is Some,
        v.leaf(target) is Some,
    ensures
        v.leaves().contains(v.leaf(source)->0),
        v.leaves().remove(v.leaf(source)->0).contains(v.leaf(target)->0),
{
    let a = v.leaf(source)->0;
    let b = v.leaf(target)->0;
    lemma_with_leaf_leaves(v, source, a);
    if a == b {
        // A third leaf in the place of the first leaves the second where it was.
        let other = LeafView { tabs: a.tabs.push(welcome()), active: a.active };
        assert(other.tabs.len() == a.tabs.len() + 1);
        let w = v.with_leaf(source, other);
        lemma_with_leaf_leaves(v, source, other);
        assert(w.leaf(target) == Some(b));
        lemma_with_leaf_leaves(w, target, b);
        assert(v.leaves().remove(a).insert(other).contains(b));
    } else {
        lemma_with_leaf_leaves(v, target, b);
    }
}

fn receive(dock: &mut Dock, source: NodePos, target: NodePos, tabs: &Vec<DockTab>)
    requires
        old(dock).wf(),
        source != target,
        old(dock)@.leaf(source) is Some,
        old(dock)@.leaf(target) is Some,
        tabs@.len() > 0,
    ensures
        final(dock).wf(),
        final(dock)@ == arrived(old(dock)@, target, tabs@),
        final(dock)@.leaf(source) == old(dock)@.leaf(source),
        final(dock)@.tabs() == old(dock)@.tabs().add(tabs@.to_multiset()) || final(dock)@.tabs()
            == old(dock)@.tabs().add(tabs@.to_multiset()).remove(welcome()),
        final(dock)@.leaves() == old(dock)@.leaves().remove(old(dock)@.leaf(target)->0).insert(
            received(old(dock)@.leaf(target)->0, tabs@),
        ),
        old(dock)@.leaves().remove(old(dock)@.leaf(source)->0).contains(old(dock)@.leaf(target)->0),
        old(dock)@.leaves().contains(old(dock)@.leaf(source)->0),
{
    broadcast use vstd::seq_lib::group_to_multiset_ensures;

    let ghost leaf = dock@.leaf(target)->0;
    append_all(dock, target, tabs);
    let ghost mid = dock@;
    proof {
        lemma_appended_all(leaf, tabs@);
        lemma_with_leaf_tabs(old(dock)@, target, appended_all(leaf, tabs@));
        vstd::seq_lib::lemma_multiset_commutative(leaf.tabs, tabs@);
        assert(mid.tabs() =~= old(dock)@.tabs().add(tabs@.to_multiset()));
        assert(mid.leaf(source) == old(dock)@.leaf(source));
        assert(mid.leaf(target) == Some(appended_all(leaf, tabs@)));
        lemma_with_leaf_leaves(old(dock)@, target, appended_all(leaf, tabs@));
        lemma_two_leaves(old(dock)@, source, target);
    }
    if any_real(tabs) {
        proof {
            let all = leaf.tabs + tabs@;
            lemma_first_index_bound(all, welcome());
            if first_index(all, welcome()) is Some {
                let i = first_index(all, welcome())->0;
                let j = choose|j: int| 0 <= j < tabs@.len() && #[trigger] tabs@[j] != welcome();
                assert(all[leaf.tabs.len() + j] == tabs@[j]);
                assert(all.len() > 1);
            }
        }
        remove_welcome_from_leaf(dock, target);
    }
}

/// Pours every tab of one leaf into another and takes the drained leaf out.
pub fn dock_merge_to(dock: &mut Dock, source: NodePos, target: NodePos)
    requires
        old(dock).wf(),
        old(dock)@.leaf(target) is Some,
    ensures
        final(dock).wf(),
        final(dock)@ == merged(old(dock)@, source, target),
        final(dock)@.tabs() == old(dock)@.tabs() || final(dock)@.tabs() == old(
            dock,
        )@.tabs().remove(welcome()),
        (old(dock)@.leaf(source) matches Some(leaf) && source != target && leaf.tabs.len() > 0)
            ==> final(dock)@.leaves() == leaves_merged(
            old(dock)@.leaves(),
            old(dock)@.leaf(source)->0,
            old(dock)@.leaf(target)->0,
        ),
{
    broadcast use vstd::seq_lib::group_to_multiset_ensures;

    if source == target {
        return;
    }
    if let Some(leaf) = dock.leaf(source) {
        if leaf.0.len() == 0 {
            return;
        }
        let ghost moved = leaf.0@;
        let first: DockTab = leaf.0[0];
        dock.set_leaf(source, Vec::new(), leaf.1);
        let ghost drained = dock@;
        proof {
            let empty = LeafView { tabs: seq![], active: leaf.1 as nat };
            assert(drained == old(dock)@.with_leaf(source, empty));
            lemma_with_leaf_tabs(old(dock)@, source, empty);
            assert(empty.tabs.to_multiset() =~= Multiset::empty());
            assert(drained.tabs().add(moved.to_multiset()) =~= old(dock)@.tabs());
            assert(drained.leaf(target) == old(dock)@.leaf(target));
            lemma_with_leaf_leaves(old(dock)@, source, empty);
            lemma_two_leaves(old(dock)@, source, target);
        }
        receive(dock, source, target, &leaf.0);
        let ghost before = dock@;
        dock.remove_leaf(source);
        proof {
            let s = source.surface as int;
            assert(before.leaf(source) == Some(LeafView { tabs: seq![], active: leaf.1 as nat }));
            lemma_surfaces_tabs_update(before.surfaces, s, Some(dock@.tree(s)));
            assert(node_tabs(before.tree(s).nodes[source.node as int]) =~= Multiset::empty());
            assert(tree_tabs(dock@.tree(s).nodes) =~= tree_tabs(before.tree(s).nodes));
            assert(dock@.tabs() =~= before.tabs());
            assert(dock@.leaves() =~= leaves_merged(
                old(dock)@.leaves(),
                old(dock)@.leaf(source)->0,
                old(dock)@.leaf(target)->0,
            ));
        }
        let ghost gone = dock@;
        if let Some(found) = dock.find_tab(&first) {
            dock.set_focus(found.node_pos());
            proof {
                lemma_focused_on_tabs(gone, found.node_pos());
                lemma_focused_on_leaves(gone, found.node_pos());
            }
        }
    }
}

/// The dock after the open tab of one leaf moved to another and got the
/// focus. A leaf that loses its last tab goes.
pub open spec fn tab_moved(v: DockView, source: NodePos, target: NodePos) -> DockView {
    match v.leaf(source) {
        Some(leaf) => if source == target || leaf.tabs.len() == 0 {
            v
        } else {
            let idx = moving_index(leaf);
            let left = v.with_leaf(source, moved_from(leaf));
            let there = arrived(left, target, seq![leaf.tabs[idx]]);
            refocused(
                if leaf.tabs.len() == 1 {
                    leaf_gone(there, source)
                } else {
                    there
                },
                leaf.tabs[idx],
            )
        },
        None => v,
    }
}

proof fn lemma_leaves_moved(leaves: Multiset<LeafView>, source: LeafView, target: LeafView)
    requires
        leaves.contains(source),
        leaves.remove(source).contains(target),
    ensures
        ({
            let now = leaves.remove(source).insert(moved_from(source)).remove(target).insert(
                received(target, seq![source.tabs[moving_index(source)]]),
            );
            if source.tabs.len() == 1 {
                now.remove(moved_from(source)) == leaves_moved(leaves, source, target)
            } else {
                now == leaves_moved(leaves, source, target)
            }
        }),
{
    let now = leaves.remove(source).insert(moved_from(source)).remove(target).insert(
        received(target, seq![source.tabs[moving_index(source)]]),
    );
    if source.tabs.len() == 1 {
        assert(now.remove(moved_from(source)) =~= leaves_moved(leaves, source, target));
    } else {
        assert(now =~= leaves_moved(leaves, source, target));
    }
}

/// Moves the open tab of one leaf to another.
#[verifier::rlimit(60)]
#[verifier::spinoff_prover]
pub fn dock_move_tab_to(dock: &mut Dock, source: NodePos, target: NodePos)
    requires
        old(dock).wf(),
        old(dock)@.leaf(target) is Some,
    ensures
        final(dock).wf(),
        final(dock)@ == tab_moved(old(dock)@, source, target),
        final(dock)@.tabs() == old(dock)@.tabs() || final(dock)@.tabs() == old(
            dock,
        )@.tabs().remove(welcome()),
        (old(dock)@.leaf(source) matches Some(leaf) && source != target && leaf.tabs.len() > 0)
            ==> final(dock)@.leaves() == leaves_moved(
            old(dock)@.leaves(),
            old(dock)@.leaf(source)->0,
            old(dock)@.leaf(target)->0,
        ),
{
    broadcast use vstd::seq_lib::group_to_multiset_ensures;

    if source == target {
        return;
    }
    if let Some(leaf) = dock.leaf(source) {
        let mut tabs: Vec<DockTab> = leaf.0;
        let active: usize = leaf.1;
        if tabs.len() == 0 {
            return;
        }
        let ghost all = tabs@;
        let idx: usize = if active < tabs.len() {
            active
        } else {
            tabs.len() - 1
        };
        let tab: DockTab = tabs.remove(idx);
        let emptied: bool = tabs.len() == 0;
        let new_active: usize = if emptied {
            active
        } else if idx < tabs.len() {
            idx
        } else {
            tabs.len() - 1
        };
        let ghost rest = tabs@;
        dock.set_leaf(source, tabs, new_active);
        let ghost left = dock@;
        let mut one: Vec<DockTab> = Vec::new();
        one.push(tab);
        assert(one@ =~= seq![tab]);
        proof {
            let kept = LeafView { tabs: rest, active: new_active as nat };
            lemma_with_leaf_tabs(old(dock)@, source, kept);
            assert(rest.to_multiset() =~= all.to_multiset().remove(tab));
            assert(all.to_multiset().contains(tab));
            assert(one@ =~= Seq::<DockTab>::empty().push(tab));
            assert(Seq::<DockTab>::empty().to_multiset() =~= Multiset::empty());
            assert(one@.to_multiset() =~= Multiset::singleton(tab));
            assert(left.tabs().add(one@.to_multiset()) =~= old(dock)@.tabs());
            assert(left.leaf(target) == old(dock)@.leaf(target));
            assert(kept == moved_from(old(dock)@.leaf(source)->0));
            lemma_with_leaf_leaves(old(dock)@, source, kept);
            lemma_two_leaves(old(dock)@, source, target);
        }
        receive(dock, source, target, &one);
        let ghost before = dock@;
        if emptied {
            dock.remove_leaf(source);
            proof {
                let s = source.surface as int;
                assert(before.leaf(source) == Some(
                    LeafView { tabs: rest, active: new_active as nat },
                ));
                assert(rest =~= seq![]);
                lemma_surfaces_tabs_update(before.surfaces, s, Some(dock@.tree(s)));
                assert(node_tabs(before.tree(s).nodes[source.node as int]) =~= Multiset::empty());
                assert(tree_tabs(dock@.tree(s).nodes) =~= tree_tabs(before.tree(s).nodes));
                assert(dock@.tabs() =~= before.tabs());
            }
        }
        proof {
            lemma_leaves_moved(
                old(dock)@.leaves(),
                old(dock)@.leaf(source)->0,
                old(dock)@.leaf(target)->0,
            );
        }
        let ghost gone = dock@;
        if let Some(found) = dock.find_tab(&tab) {
            dock.set_focus(found.node_pos());
            proof {
                lemma_focused_on_tabs(gone, found.node_pos());
                lemma_focused_on_leaves(gone, found.node_pos());
            }
        }
    }
}

/// The pane that a split, merge or move acts on: the focused leaf, else the
/// leaf of the active file's tab.
pub open spec fn target_leaf(v: DockView, active: Option<FileId>) -> Option<(nat, nat)> {
    match v.focused_leaf() {
        Some(at) => Some(at),
        None => match active {
            Some(id) => match v.find(DockTab::Outer(Tab::File(id))) {
                Some(pos) => Some((pos.surface as nat, pos.node as nat)),
                None => None,
            },
            None => None,
        },
    }
}

/// The pane that a split, merge or move acts on.
pub fn resolve_target_leaf(dock: &Dock, active: Option<FileId>) -> (r: Option<NodePos>)
    requires
        dock.wf(),
    ensures
        match (target_leaf(dock@, active), r) {
            (Some(at), Some(pos)) => at == (pos.surface as nat, pos.node as nat),
            (None, None) => true,
            _ => false,
        },
{
    if let Some(pos) = dock.focused_leaf() {
        return Some(pos);
    }
    match active {
        Some(id) => match dock.find_tab(&DockTab::Outer(Tab::File(id))) {
            Some(pos) => Some(pos.node_pos()),
            None => None,
        },
        None => None,
    }
}

/// Asks for a new pane beside the target pane. It starts with the placeholder
/// page, so that no tab stands in the dock twice.
pub fn dock_split_focused(dock: &Dock, active: Option<FileId>, dir: DockDir) -> (r: Option<
    SplitRequest,
>)
    requires
        dock.wf(),
    ensures
        r is Some <==> target_leaf(dock@, active) is Some,
        r matches Some(split) ==> target_leaf(dock@, active) == Some(
            (split.at.surface as nat, split.at.node as nat),
        ) && split.dir == dir && split.keep_percent == 50 && split.tabs@ == seq![welcome()],
{
    match resolve_target_leaf(dock, active) {
        Some(at) => {
            let mut tabs: Vec<DockTab> = Vec::new();
            tabs.push(DockTab::Outer(Tab::Welcome));
            assert(tabs@ =~= seq![welcome()]);
            Some(SplitRequest { at, dir, keep_percent: 50, tabs })
        },
        None => None,
    }
}

/// The pane next to a place within its surface.
pub open spec fn next_door(v: DockView, at: (nat, nat), dir: DockDir) -> Option<nat> {
    if v.has_tree(at.0 as int) {
        neighbor(v.tree(at.0 as int).nodes, at.1 as int, dir)
    } else {
        None
    }
}

fn neighbor_of(dock: &Dock, pos: NodePos, dir: DockDir) -> (r: Option<NodePos>)
    requires
        dock.wf(),
    ensures
        match (next_door(dock@, (pos.surface as nat, pos.node as nat), dir), r) {
            (Some(n), Some(q)) => q.surface == pos.surface && q.node == n,
            (None, None) => true,
            _ => false,
        },
{
    match dock.nodes(pos.surface) {
        Some(nodes) => match find_neighbor_leaf(&nodes, pos.node, dir) {
            Some(node) => Some(NodePos { surface: pos.surface, node }),
            None => None,
        },
        None => None,
    }
}

/// The source and destination of a directional merge or move.
pub open spec fn route(v: DockView, active: Option<FileId>, dir: DockDir) -> Option<
    (NodePos, NodePos),
> {
    match target_leaf(v, active) {
        Some(at) => match next_door(v, at, dir) {
            Some(n) => Some(
                (
                    NodePos { surface: at.0 as usize, node: at.1 as usize },
                    NodePos { surface: at.0 as usize, node: n as usize },
                ),
            ),
            None => None,
        },
        None => None,
    }
}

/// Merges the target pane into its neighbour; nothing happens where it has
/// none on that side.
pub fn dock_merge_focused(dock: &mut Dock, active: Option<FileId>, dir: DockDir)
    requires
        old(dock).wf(),
    ensures
        final(dock).wf(),
        final(dock)@ == match route(old(dock)@, active, dir) {
            Some(pair) => merged(old(dock)@, pair.0, pair.1),
            None => old(dock)@,
        },
{
    if let Some(pos) = resolve_target_leaf(dock, active) {
        if dock.leaf(pos).is_none() {
            return;
        }
        if let Some(target) = neighbor_of(dock, pos, dir) {
            proof {
                law_neighbor_is_leaf(dock@.tree(pos.surface as int), pos.node as int, dir);
            }
            dock_merge_to(dock, pos, target);
        }
    }
}

/// Moves the target pane's open tab to its neighbour; nothing happens where it
/// has none on that side.
pub fn dock_move_focused_tab(dock: &mut Dock, active: Option<FileId>, dir: DockDir)
    requires
        old(dock).wf(),
    ensures
        final(dock).wf(),
        final(dock)@ == match route(old(dock)@, active, dir) {
            Some(pair) => tab_moved(old(dock)@, pair.0, pair.1),
            None => old(dock)@,
        },
{
    if let Some(pos) = resolve_target_leaf(dock, active) {
        if dock.leaf(pos).is_none() {
            return;
        }
        if let Some(target) = neighbor_of(dock, pos, dir) {
            proof {
                law_neighbor_is_leaf(dock@.tree(pos.surface as int), pos.node as int, dir);
            }
            dock_move_tab_to(dock, pos, target);
        }
    }
}

/// Cycling opens the tab behind the open one, or the first behind the last, and
/// backward the one before it, or the last before the first. The tabs of the pane stay,
/// and so do all other panes.
pub proof fn law_cycling_opens_next_tab(v: DockView, pos: NodePos, at: NodePos)
    requires
        v.leaf(pos) is Some,
        (v.leaf(pos)->0).active < (v.leaf(pos)->0).tabs.len(),
    ensures
        ({
            let leaf = v.leaf(pos)->0;
            let n = leaf.tabs.len();
            let next = leaf_cycled(v, pos, true).leaf(pos);
            let previous = leaf_cycled(v, pos, false).leaf(pos);
            &&& next matches Some(l) && l.tabs == leaf.tabs && l.active == (leaf.active + 1) % n
            &&& previous matches Some(l) && l.tabs == leaf.tabs && (l.active + 1) % n
                == leaf.active && l.active < n
            &&& at != pos ==> leaf_cycled(v, pos, true).leaf(at) == v.leaf(at) && leaf_cycled(
                v,
                pos,
                false,
            ).leaf(at) == v.leaf(at)
        }),
{
    let leaf = v.leaf(pos)->0;
    let n = leaf.tabs.len();
    if leaf.active + 1 < n {
        vstd::arithmetic::div_mod::lemma_small_mod((leaf.active + 1) as nat, n);
    } else {
        vstd::arithmetic::div_mod::lemma_mod_self_0(n as int);
    }
    if leaf.active > 0 {
        vstd::arithmetic::div_mod::lemma_small_mod(leaf.active, n);
    } else {
        vstd::arithmetic::div_mod::lemma_mod_self_0(n as int);
        if n == 1 {
            vstd::arithmetic::div_mod::lemma_mod_self_0(1);
        }
    }
}

/// The keys go from a workspace's tab bar to the outer one, and from there into the
/// workspace in front; without one they stay.
pub proof fn law_focus_goes_into_open_workspace(v: DockView, id: WorkspaceId)
    ensures
        focus_toggled(TabFocus::Workspace(id), v) is Outer,
        focused_tab(v) == Some(DockTab::Outer(Tab::Workspace(id))) ==> focus_toggled(
            TabFocus::Outer,
            v,
        ) == TabFocus::Workspace(id),
        focused_tab(v) is None ==> focus_toggled(TabFocus::Outer, v) is Outer,
        (focused_tab(v) matches Some(DockTab::Outer(Tab::File(_)))) ==> focus_toggled(
            TabFocus::Outer,
            v,
        ) is Outer,
{
}

/// Tabs that arrive in a pane stand behind its own in their order, and the last of them
/// is open. Where the pane held the placeholder page and a real tab arrives, that page
/// goes and the others stay in order.
pub proof fn law_arriving_tabs_stand_behind(leaf: LeafView, tabs: Seq<DockTab>)
    requires
        tabs.len() > 0,
    ensures
        !(leaf.tabs + tabs).contains(welcome()) ==> received(leaf, tabs).tabs == leaf.tabs + tabs
            && received(leaf, tabs).active == leaf.tabs.len() + tabs.len() - 1,
        leaf.tabs.contains(welcome()) && (exists|i: int|
            0 <= i < tabs.len() && #[trigger] tabs[i] != welcome()) ==> exists|k: int|
            0 <= k < leaf.tabs.len() && #[trigger] leaf.tabs[k] == welcome() && received(
                leaf,
                tabs,
            ).tabs == (leaf.tabs + tabs).remove(k) && received(leaf, tabs).active
                == leaf.tabs.len() + tabs.len() - 2,
{
    lemma_appended_all(leaf, tabs);
    let all = leaf.tabs + tabs;
    lemma_first_index_bound(all, welcome());
    if !all.contains(welcome()) {
        if let Some(i) = first_index(all, welcome()) {
            assert(all[i as int] == welcome());
            assert(all.contains(welcome()));
        }
    }
    if leaf.tabs.contains(welcome()) {
        let k = choose|k: int| 0 <= k < leaf.tabs.len() && leaf.tabs[k] == welcome();
        assert(all[k] == welcome());
        lemma_first_index_first(all, welcome(), k);
        let i = first_index(all, welcome())->0 as int;
        assert(leaf.tabs[i] == welcome());
        if has_real_tab(tabs) {
            let full = appended_all(leaf, tabs);
            assert(full.tabs == all);
            assert(received(leaf, tabs) == leaf_without(full, i));
            assert(received(leaf, tabs).tabs == all.remove(i));
        }
    }
}

proof fn lemma_first_index_first(tabs: Seq<DockTab>, needle: DockTab, k: int)
    requires
        0 <= k < tabs.len(),
        tabs[k] == needle,
    ensures
        first_index(tabs, needle) matches Some(i) && i <= k && tabs[i as int] == needle,
    decreases tabs.len(),
{
    if tabs[0] != needle {
        let rest = tabs.drop_first();
        assert(rest[k - 1] == needle);
        lemma_first_index_first(rest, needle, k - 1);
        let i = first_index(rest, needle)->0 as int;
        assert(tabs[i + 1] == rest[i]);
    }
}

/// The tab that moves to another pane is the open one; the others stay in order, and
/// the one that stood behind it is open then.
pub proof fn law_open_tab_moves(leaf: LeafView)
    requires
        leaf.active < leaf.tabs.len(),
    ensures
        leaf.tabs[moving_index(leaf)] == leaf.tabs[leaf.active as int],
        moved_from(leaf).tabs == leaf.tabs.remove(leaf.active as int),
        leaf.active + 1 < leaf.tabs.len() ==> moved_from(leaf).active < moved_from(leaf).tabs.len()
            && moved_from(leaf).tabs[moved_from(leaf).active as int] == leaf.tabs[leaf.active as int
            + 1],
        leaf.active + 1 == leaf.tabs.len() && leaf.tabs.len() > 1 ==> moved_from(leaf).tabs[
        moved_from(leaf).active as int] == leaf.tabs[leaf.active as int - 1],
{
}

/// A pane is merged or moved from only into another one, and only where it has tabs.
/// The pane that these act on is the focused one; without one it is that of the active
/// file. What is next to it on the asked side is where they lead.
pub proof fn law_moves_start_at_focused_pane(
    v: DockView,
    active: Option<FileId>,
    dir: DockDir,
    at: NodePos,
)
    ensures
        v.focused_leaf() == Some((at.surface as nat, at.node as nat)) ==> target_leaf(v, active)
            == Some((at.surface as nat, at.node as nat)),
        v.focused_leaf() is None && active is None ==> target_leaf(v, active) is None,
        v.focused_leaf() is None ==> (active matches Some(id) ==> match v.find(
            DockTab::Outer(Tab::File(id)),
        ) {
            Some(pos) => target_leaf(v, active) == Some((pos.surface as nat, pos.node as nat)),
            None => target_leaf(v, active) is None,
        }),
        v.focused_leaf() == Some((at.surface as nat, at.node as nat)) && v.has_tree(
            at.surface as int,
        ) ==> match neighbor(v.tree(at.surface as int).nodes, at.node as int, dir) {
            Some(n) => n <= usize::MAX ==> route(v, active, dir) == Some(
                (at, NodePos { surface: at.surface, node: n as usize }),
            ),
            None => route(v, active, dir) is None,
        },
        merged(v, at, at) == v && tab_moved(v, at, at) == v,
{
}

/// A pane that gets a real tab loses its placeholder page; one that gets only
/// placeholders, or has none, keeps all its tabs.
pub proof fn law_placeholder_gives_way(leaf: LeafView, tab: DockTab)
    ensures
        tab == DockTab::Outer(Tab::Welcome) ==> received(leaf, seq![tab]).tabs == leaf.tabs.push(
            tab,
        ),
        tab != DockTab::Outer(Tab::Welcome) ==> match first_index(
            leaf.tabs.push(tab),
            DockTab::Outer(Tab::Welcome),
        ) {
            Some(i) => received(leaf, seq![tab]).tabs == leaf.tabs.push(tab).remove(i as int),
            None => received(leaf, seq![tab]).tabs == leaf.tabs.push(tab),
        },
{
    let one = seq![tab];
    reveal_with_fuel(appended_all, 3);
    assert(one[0] == tab);
    assert(one.drop_last() =~= seq![]);
    assert(one.drop_first() =~= seq![]);
    assert(appended_all(leaf, one).tabs =~= leaf.tabs.push(tab));
    if tab != welcome() {
        assert(has_real_tab(one));
    }
}

} // verus!

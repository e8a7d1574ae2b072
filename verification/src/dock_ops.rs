//! Docking rules: where tabs go, how panes merge and which pane lies next door.

use vstd::prelude::*;
use crate::commands::DockDir;
use crate::dock::{
    appended, lemma_activated_tabs, lemma_focused_on_tabs, shapes_view, Dock, NodePos, NodeShape,
};
use crate::tabs::{is_content_item, is_tool_item, is_web_tool_item, DockTab, Tab};
#[allow(unused_imports)]
use crate::dock::{law_push_adds_tab, DockView, LeafView};
#[allow(unused_imports)]
use crate::panes::focused_tab;
#[allow(unused_imports)]
use crate::tabs::{content_item, tool_item, web_tool_item};

verus! {

/// A split that the dock area is asked to make: the pane at `at` keeps
/// `keep_percent` of its space and the rest goes to a new pane, on side `dir`,
/// that holds `tabs`.
pub struct SplitRequest {
    pub at: NodePos,
    pub dir: DockDir,
    pub keep_percent: u8,
    pub tabs: Vec<DockTab>,
}

/// Share of the main area that stays when the tool pane opens on its right.
pub const TOOL_PANE_KEEP: u8 = 72;

/// Share of the main area that stays when the console opens below.
pub const CONSOLE_KEEP: u8 = 75;

/// Share of the main area that stays when search results open below.
pub const SEARCH_KEEP: u8 = 65;

/// Share of a workspace that the old panes keep when its tree opens on the
/// left.
pub const VFS_TREE_KEEP: u8 = 30;

/// Root of the main surface.
pub open spec fn main_root() -> NodePos {
    NodePos { surface: 0, node: 0 }
}

/// Whether a split request asks for one tab beside the main root.
pub open spec fn asks_root_split(r: SplitRequest, dir: DockDir, keep: u8, tab: DockTab) -> bool {
    r.at == main_root() && r.dir == dir && r.keep_percent == keep && r.tabs@ == seq![tab]
}

fn root_split(dir: DockDir, keep_percent: u8, tab: DockTab) -> (r: SplitRequest)
    ensures
        asks_root_split(r, dir, keep_percent, tab),
{
    let mut tabs: Vec<DockTab> = Vec::new();
    tabs.push(tab);
    assert(tabs@ =~= seq![tab]);
    SplitRequest { at: NodePos { surface: 0, node: 0 }, dir, keep_percent, tabs }
}

/// The dock after a tab was brought to the front: opened in its leaf, and the
/// leaf focused. A dock without the tab stays as it is.
pub open spec fn shown(v: DockView, tab: DockTab) -> DockView {
    match v.find(tab) {
        Some(pos) => v.activated(pos).focused_on(pos.node_pos()),
        None => v,
    }
}

/// The dock after the first occurrence of a tab was taken out.
pub open spec fn closed(v: DockView, tab: DockTab) -> DockView {
    match v.find(tab) {
        Some(pos) => v.without_tab(pos),
        None => v,
    }
}

/// Brings a tab to the front; whether the dock holds it.
pub fn focus_tab(dock: &mut Dock, tab: DockTab) -> (found: bool)
    requires
        old(dock).wf(),
    ensures
        final(dock).wf(),
        found == old(dock)@.holds(tab),
        final(dock)@ == shown(old(dock)@, tab),
        !found ==> final(dock)@ == old(dock)@,
        final(dock)@.tabs() == old(dock)@.tabs(),
{
    match dock.find_tab(&tab) {
        Some(pos) => {
            dock.set_active_tab(pos);
            dock.set_focus(pos.node_pos());
            proof {
                lemma_activated_tabs(old(dock)@, pos);
                lemma_focused_on_tabs(old(dock)@.activated(pos), pos.node_pos());
            }
            true
        },
        None => false,
    }
}

/// Takes the first occurrence of a tab out; whether the dock held it.
pub fn close_tab(dock: &mut Dock, tab: DockTab) -> (found: bool)
    requires
        old(dock).wf(),
    ensures
        final(dock).wf(),
        found == old(dock)@.holds(tab),
        final(dock)@ == closed(old(dock)@, tab),
        found ==> final(dock)@.tabs() == old(dock)@.tabs().remove(tab),
        !found ==> final(dock)@ == old(dock)@,
{
    match dock.find_tab(&tab) {
        Some(pos) => {
            dock.remove_tab(pos);
            true
        },
        None => false,
    }
}

/// The dock after a tab took the place of another in its leaf and is open there.
/// Where the other is not docked, the tab goes to the focused leaf.
pub open spec fn in_place_of(v: DockView, other: DockTab, tab: DockTab) -> DockView {
    match v.find(other) {
        Some(pos) => v.with_leaf(
            pos.node_pos(),
            LeafView {
                tabs: (v.leaf(pos.node_pos())->0).tabs.update(pos.tab as int, tab),
                active: pos.tab as nat,
            },
        ),
        None => v.pushed(tab),
    }
}

/// Putting a tab in the place of another leaves all panes where they are, and all
/// but that one as they are.
pub proof fn law_place_taken_keeps_panes(v: DockView, other: DockTab, tab: DockTab, at: NodePos)
    requires
        v.find(other) is Some,
        v.tab_at(v.find(other)->0) is Some,
    ensures
        in_place_of(v, other, tab).surfaces.len() == v.surfaces.len(),
        in_place_of(v, other, tab).leaf(at) is Some <==> v.leaf(at) is Some,
        at != (v.find(other)->0).node_pos() ==> in_place_of(v, other, tab).leaf(at) == v.leaf(at),
        in_place_of(v, other, tab).tab_at(v.find(other)->0) == Some(tab),
{
    let pos = v.find(other)->0;
    let s = at.surface as int;
    if v.has_tree(s) && at.surface == pos.surface {
        let before = v.tree(s).nodes;
        let after = in_place_of(v, other, tab).tree(s).nodes;
        assert(after.len() == before.len());
    }
}

/// Puts a tab in the place of another; the leaf of that other.
pub fn take_place(dock: &mut Dock, other: DockTab, tab: DockTab) -> (r: Option<NodePos>)
    requires
        old(dock).wf(),
    ensures
        final(dock).wf(),
        final(dock)@ == in_place_of(old(dock)@, other, tab),
        r == match old(dock)@.find(other) {
            Some(pos) => Some(pos.node_pos()),
            None => None,
        },
        r matches Some(at) ==> final(dock)@.leaf(at) is Some,
{
    if let Some(pos) = dock.find_tab(&other) {
        let at = pos.node_pos();
        if let Some((mut tabs, _)) = dock.leaf(at) {
            tabs.set(pos.tab, tab);
            dock.set_leaf(at, tabs, pos.tab);
            return Some(at);
        }
    }
    dock.push_to_focused_leaf(tab);
    None
}

/// Whether there are tabs and every one is a tool tab.
pub open spec fn all_tools(tabs: Seq<DockTab>) -> bool {
    tabs.len() > 0 && forall|i: int| 0 <= i < tabs.len() ==> tool_item(#[trigger] tabs[i])
}

/// Whether there are tabs and every one is a tool tab in a browser.
pub open spec fn all_web_tools(tabs: Seq<DockTab>) -> bool {
    tabs.len() > 0 && forall|i: int| 0 <= i < tabs.len() ==> web_tool_item(#[trigger] tabs[i])
}

/// Whether there is a content tab among the tabs.
pub open spec fn some_content(tabs: Seq<DockTab>) -> bool {
    exists|i: int| 0 <= i < tabs.len() && content_item(#[trigger] tabs[i])
}

/// What a search for a leaf looks for.
#[derive(Clone, Copy, PartialEq, Eq, Structural)]
pub enum LeafKind {
    /// All of its tabs are tools.
    Tool,
    /// All of its tabs are tools in a browser.
    WebTool,
    /// One of its tabs is content.
    Content,
    /// One of its tabs is open.
    Open,
}

/// Whether a leaf is of the given kind.
pub open spec fn leaf_is(kind: LeafKind, leaf: LeafView) -> bool {
    match kind {
        LeafKind::Tool => all_tools(leaf.tabs),
        LeafKind::WebTool => all_web_tools(leaf.tabs),
        LeafKind::Content => some_content(leaf.tabs),
        LeafKind::Open => leaf.active < leaf.tabs.len(),
    }
}

/// Whether the leaf at a place is of the given kind.
pub open spec fn leaf_at_is(v: DockView, kind: LeafKind, pos: NodePos) -> bool {
    v.leaf(pos) matches Some(leaf) && leaf_is(kind, leaf)
}

/// Whether a place is the first, surface by surface and node by node, whose
/// leaf is of the given kind.
pub open spec fn first_leaf_of(v: DockView, kind: LeafKind, pos: NodePos) -> bool {
    &&& leaf_at_is(v, kind, pos)
    &&& forall|q: NodePos| #[trigger]
        leaf_at_is(v, kind, q) ==> pos.surface < q.surface || (pos.surface == q.surface && pos.node
            <= q.node)
}

/// The first place whose leaf is of the given kind.
pub open spec fn find_leaf_spec(v: DockView, kind: LeafKind) -> Option<NodePos> {
    if exists|pos: NodePos| first_leaf_of(v, kind, pos) {
        Some(choose|pos: NodePos| first_leaf_of(v, kind, pos))
    } else {
        None
    }
}

fn tabs_are(kind: LeafKind, tabs: &Vec<DockTab>, active: usize) -> (r: bool)
    ensures
        r == leaf_is(kind, (LeafView { tabs: tabs@, active: active as nat })),
{
    let mut any_content: bool = false;
    let mut all_tool: bool = true;
    let mut all_web: bool = true;
    let mut i: usize = 0;
    while i < tabs.len()
        invariant
            i <= tabs.len(),
            any_content == exists|j: int| 0 <= j < i && content_item(#[trigger] tabs@[j]),
            all_tool == forall|j: int| 0 <= j < i ==> tool_item(#[trigger] tabs@[j]),
            all_web == forall|j: int| 0 <= j < i ==> web_tool_item(#[trigger] tabs@[j]),
        decreases tabs.len() - i,
    {
        if is_content_item(&tabs[i]) {
            any_content = true;
        }
        if !is_tool_item(&tabs[i]) {
            all_tool = false;
        }
        if !is_web_tool_item(&tabs[i]) {
            all_web = false;
        }
        i = i + 1;
    }
    match kind {
        LeafKind::Tool => tabs.len() > 0 && all_tool,
        LeafKind::WebTool => tabs.len() > 0 && all_web,
        LeafKind::Content => any_content,
        LeafKind::Open => active < tabs.len(),
    }
}

/// Whether the leaf at a place is of the given kind.
pub fn leaf_has_kind(dock: &Dock, kind: LeafKind, pos: NodePos) -> (r: bool)
    ensures
        r == leaf_at_is(dock@, kind, pos),
{
    match dock.leaf(pos) {
        Some(leaf) => tabs_are(kind, &leaf.0, leaf.1),
        None => false,
    }
}

/// First leaf of the given kind.
pub fn find_leaf(dock: &Dock, kind: LeafKind) -> (r: Option<NodePos>)
    ensures
        r == find_leaf_spec(dock@, kind),
        r matches Some(pos) ==> first_leaf_of(dock@, kind, pos),
        r is None ==> forall|q: NodePos| !leaf_at_is(dock@, kind, q),
{
    let count: usize = dock.surfaces();
    let mut s: usize = 0;
    while s < count
        invariant
            s <= count,
            count == dock@.surfaces.len(),
            forall|q: NodePos| q.surface < s ==> !(#[trigger] leaf_at_is(dock@, kind, q)),
        decreases count - s,
    {
        match dock.nodes(s) {
            Some(nodes) => {
                let ghost tree = dock@.tree(s as int);
                let mut n: usize = 0;
                while n < nodes.len()
                    invariant
                        n <= nodes.len(),
                        s < count,
                        dock@.has_tree(s as int),
                        tree == dock@.tree(s as int),
                        shapes_view(nodes@) == tree.nodes,
                        forall|q: NodePos|
                            q.surface < s || (q.surface == s && q.node < n) ==> !(
                            #[trigger] leaf_at_is(dock@, kind, q)),
                    decreases nodes.len() - n,
                {
                    let pos = NodePos { surface: s, node: n };
                    assert(shapes_view(nodes@)[n as int] == nodes@[n as int]@);
                    let hit = match &nodes[n] {
                        NodeShape::Leaf { tabs, active } => tabs_are(kind, tabs, *active),
                        _ => false,
                    };
                    assert(hit == leaf_at_is(dock@, kind, pos));
                    if hit {
                        assert(first_leaf_of(dock@, kind, pos));
                        proof {
                            let other = choose|p: NodePos| first_leaf_of(dock@, kind, p);
                            assert(leaf_at_is(dock@, kind, other));
                            assert(leaf_at_is(dock@, kind, pos));
                        }
                        return Some(pos);
                    }
                    n = n + 1;
                }
                assert(tree.nodes.len() == nodes@.len());
            },
            None => {},
        }
        s = s + 1;
    }
    None
}

/// First leaf whose tabs are all tools.
pub fn find_tool_leaf(dock: &Dock) -> (r: Option<NodePos>)
    ensures
        r == find_leaf_spec(dock@, LeafKind::Tool),
        r matches Some(pos) ==> first_leaf_of(dock@, LeafKind::Tool, pos),
        r is None ==> forall|q: NodePos| !leaf_at_is(dock@, LeafKind::Tool, q),
{
    find_leaf(dock, LeafKind::Tool)
}

/// First leaf that holds a content tab.
pub fn find_content_leaf(dock: &Dock) -> (r: Option<NodePos>)
    ensures
        r == find_leaf_spec(dock@, LeafKind::Content),
        r matches Some(pos) ==> first_leaf_of(dock@, LeafKind::Content, pos),
        r is None ==> forall|q: NodePos| !leaf_at_is(dock@, LeafKind::Content, q),
{
    find_leaf(dock, LeafKind::Content)
}

/// What became of a tab that was to be placed in the dock.
pub enum Placement {
    /// It stands in this leaf now.
    Placed(NodePos),
    /// It needs a new pane, which only the dock area can make.
    NeedsSplit(SplitRequest),
}

/// Appends a tab to the first pane of a kind, or asks for a pane on the right
/// where there is none yet.
fn push_to_pane(dock: &mut Dock, kind: LeafKind, tab: Tab) -> (r: Placement)
    requires
        old(dock).wf(),
    ensures
        final(dock).wf(),
        pushed_to_pane(old(dock)@, kind, tab, r, final(dock)@),
{
    match find_leaf(dock, kind) {
        Some(pos) => {
            dock.append_to_leaf(pos, DockTab::Outer(tab));
            Placement::Placed(pos)
        },
        None => Placement::NeedsSplit(
            root_split(DockDir::Right, TOOL_PANE_KEEP, DockTab::Outer(tab)),
        ),
    }
}

/// Whether a tab was appended to the first pane of a kind, or a pane on the
/// right is asked for where there is none.
pub open spec fn pushed_to_pane(
    before: DockView,
    kind: LeafKind,
    tab: Tab,
    r: Placement,
    after: DockView,
) -> bool {
    match (find_leaf_spec(before, kind), r) {
        (Some(pos), Placement::Placed(at)) => at == pos && after == before.with_leaf(
            pos,
            appended(before.leaf(pos)->0, DockTab::Outer(tab)),
        ),
        (None, Placement::NeedsSplit(split)) => after == before && asks_root_split(
            split,
            DockDir::Right,
            TOOL_PANE_KEEP,
            DockTab::Outer(tab),
        ),
        _ => false,
    }
}

/// Appends a tool tab to the tool pane, or asks for a pane on the right where
/// there is none yet.
pub fn push_tool_tab(dock: &mut Dock, tab: Tab) -> (r: Placement)
    requires
        old(dock).wf(),
    ensures
        final(dock).wf(),
        pushed_to_pane(old(dock)@, LeafKind::Tool, tab, r, final(dock)@),
{
    push_to_pane(dock, LeafKind::Tool, tab)
}

/// The dock after a tab was shown in a dock that has a place for it: an open one
/// is brought to the front, a new one joins the first pane of a kind and takes
/// the focus.
pub open spec fn pane_shown(v: DockView, kind: LeafKind, tab: Tab) -> DockView {
    if v.holds(DockTab::Outer(tab)) {
        shown(v, DockTab::Outer(tab))
    } else {
        match find_leaf_spec(v, kind) {
            Some(pos) => v.with_leaf(
                pos,
                appended(v.leaf(pos)->0, DockTab::Outer(tab)),
            ).focused_on(pos),
            None => v,
        }
    }
}

/// The dock after a tool tab was shown in a dock that has a place for it.
pub open spec fn tool_shown(v: DockView, tab: Tab) -> DockView {
    pane_shown(v, LeafKind::Tool, tab)
}

/// Shows a tab: focuses it where it is, or adds it to the first pane of a kind.
/// Where there is no such pane yet, the split that makes one is handed back.
pub fn show_in_pane(dock: &mut Dock, kind: LeafKind, tab: Tab) -> (r: Option<SplitRequest>)
    requires
        old(dock).wf(),
    ensures
        final(dock).wf(),
        final(dock)@ == pane_shown(old(dock)@, kind, tab),
        r is Some <==> !old(dock)@.holds(DockTab::Outer(tab)) && find_leaf_spec(
            old(dock)@,
            kind,
        ) is None,
        r matches Some(split) ==> asks_root_split(
            split,
            DockDir::Right,
            TOOL_PANE_KEEP,
            DockTab::Outer(tab),
        ),
{
    if focus_tab(dock, DockTab::Outer(tab)) {
        return None;
    }
    match push_to_pane(dock, kind, tab) {
        Placement::Placed(pos) => {
            dock.set_focus(pos);
            None
        },
        Placement::NeedsSplit(split) => Some(split),
    }
}

/// Shows a tool tab: focuses it where it is, or adds it to the tool pane. Where
/// there is no tool pane yet, the split that makes one is handed back.
pub fn show_tool_tab(dock: &mut Dock, tab: Tab) -> (r: Option<SplitRequest>)
    requires
        old(dock).wf(),
    ensures
        final(dock).wf(),
        final(dock)@ == tool_shown(old(dock)@, tab),
        r is Some <==> !old(dock)@.holds(DockTab::Outer(tab)) && find_leaf_spec(
            old(dock)@,
            LeafKind::Tool,
        ) is None,
        r matches Some(split) ==> asks_root_split(
            split,
            DockDir::Right,
            TOOL_PANE_KEEP,
            DockTab::Outer(tab),
        ),
{
    show_in_pane(dock, LeafKind::Tool, tab)
}

/// Closes a tool tab that is open, else shows it.
pub fn toggle_tool_tab(dock: &mut Dock, tab: Tab) -> (r: Option<SplitRequest>)
    requires
        old(dock).wf(),
    ensures
        final(dock).wf(),
        final(dock)@ == if old(dock)@.holds(DockTab::Outer(tab)) {
            closed(old(dock)@, DockTab::Outer(tab))
        } else {
            tool_shown(old(dock)@, tab)
        },
        r is Some <==> !old(dock)@.holds(DockTab::Outer(tab)) && find_leaf_spec(
            old(dock)@,
            LeafKind::Tool,
        ) is None,
        r matches Some(split) ==> asks_root_split(
            split,
            DockDir::Right,
            TOOL_PANE_KEEP,
            DockTab::Outer(tab),
        ),
{
    if close_tab(dock, DockTab::Outer(tab)) {
        return None;
    }
    show_tool_tab(dock, tab)
}

/// Shows a tab that has its own pane below the main area: focuses it where it
/// is, or asks for the pane.
pub fn show_below(dock: &mut Dock, tab: Tab, keep_percent: u8) -> (r: Option<SplitRequest>)
    requires
        old(dock).wf(),
    ensures
        final(dock).wf(),
        final(dock)@ == shown(old(dock)@, DockTab::Outer(tab)),
        r is None <==> old(dock)@.holds(DockTab::Outer(tab)),
        r matches Some(split) ==> asks_root_split(
            split,
            DockDir::Down,
            keep_percent,
            DockTab::Outer(tab),
        ),
{
    if focus_tab(dock, DockTab::Outer(tab)) {
        None
    } else {
        Some(root_split(DockDir::Down, keep_percent, DockTab::Outer(tab)))
    }
}

/// Closes a tab that is open below the main area, else asks for its pane.
pub fn toggle_below(dock: &mut Dock, tab: Tab, keep_percent: u8) -> (r: Option<SplitRequest>)
    requires
        old(dock).wf(),
    ensures
        final(dock).wf(),
        final(dock)@ == closed(old(dock)@, DockTab::Outer(tab)),
        r is None <==> old(dock)@.holds(DockTab::Outer(tab)),
        r matches Some(split) ==> asks_root_split(
            split,
            DockDir::Down,
            keep_percent,
            DockTab::Outer(tab),
        ),
{
    if close_tab(dock, DockTab::Outer(tab)) {
        None
    } else {
        Some(root_split(DockDir::Down, keep_percent, DockTab::Outer(tab)))
    }
}

/// The dock after a content page was shown: brought to the front where it is
/// open, else pushed to the focused leaf.
pub open spec fn page_shown(v: DockView, tab: Tab) -> DockView {
    if v.holds(DockTab::Outer(tab)) {
        shown(v, DockTab::Outer(tab))
    } else {
        v.pushed(DockTab::Outer(tab))
    }
}

/// Shows a content page.
pub fn show_page(dock: &mut Dock, tab: Tab)
    requires
        old(dock).wf(),
    ensures
        final(dock).wf(),
        final(dock)@ == page_shown(old(dock)@, tab),
{
    if !focus_tab(dock, DockTab::Outer(tab)) {
        dock.push_to_focused_leaf(DockTab::Outer(tab));
    }
}

/// Closes a content page that is open, else shows it.
pub fn toggle_page(dock: &mut Dock, tab: Tab)
    requires
        old(dock).wf(),
    ensures
        final(dock).wf(),
        final(dock)@ == if old(dock)@.holds(DockTab::Outer(tab)) {
            closed(old(dock)@, DockTab::Outer(tab))
        } else {
            old(dock)@.pushed(DockTab::Outer(tab))
        },
{
    if !close_tab(dock, DockTab::Outer(tab)) {
        show_page(dock, tab);
    }
}

/// A tab that is brought to the front is the open tab of the focused pane; no tab
/// moves, and every other pane keeps its open tab.
pub proof fn law_shown_tab_is_in_front(v: DockView, tab: DockTab)
    requires
        v.find(tab) is Some,
    ensures
        focused_tab(shown(v, tab)) == Some(tab),
        shown(v, tab).tabs() == v.tabs(),
        forall|at: NodePos|
            at != (v.find(tab)->0).node_pos() ==> #[trigger] shown(v, tab).leaf(at) == v.leaf(at),
        shown(v, tab).leaf((v.find(tab)->0).node_pos()) matches Some(leaf) && leaf.tabs == (v.leaf(
            (v.find(tab)->0).node_pos(),
        )->0).tabs,
{
    let pos = v.find(tab)->0;
    assert(v.first_at(tab, pos));
    lemma_activated_tabs(v, pos);
    let w = v.activated(pos);
    lemma_focused_on_tabs(w, pos.node_pos());
    assert(w.leaf(pos.node_pos()) is Some);
}

/// A tab that is not docked is not brought to the front, and nothing changes.
pub proof fn law_absent_tab_changes_nothing(v: DockView, tab: DockTab)
    requires
        v.find(tab) is None,
    ensures
        shown(v, tab) == v,
        closed(v, tab) == v,
{
}

/// A tab that is shown anew joins the first pane of its kind as the last tab, is open
/// there, and the pane has the focus; other panes stay as they are. Where there is no
/// such pane, the dock stays and a new pane is asked for.
pub proof fn law_new_tab_joins_pane_of_its_kind(v: DockView, kind: LeafKind, tab: Tab)
    requires
        !v.holds(DockTab::Outer(tab)),
    ensures
        find_leaf_spec(v, kind) is None ==> pane_shown(v, kind, tab) == v,
        find_leaf_spec(v, kind) matches Some(pos) ==> {
            let after = pane_shown(v, kind, tab);
            &&& after.leaf(pos) matches Some(leaf) && leaf.tabs == (v.leaf(pos)->0).tabs.push(
                DockTab::Outer(tab),
            )
            &&& focused_tab(after) == Some(DockTab::Outer(tab))
            &&& forall|at: NodePos| at != pos ==> #[trigger] after.leaf(at) == v.leaf(at)
        },
{
    if let Some(pos) = find_leaf_spec(v, kind) {
        assert(first_leaf_of(v, kind, pos));
        assert(leaf_at_is(v, kind, pos));
    }
}

/// A pane of tools has tabs and every one of them is a tool; one with content has a
/// content tab. The first pane of a kind comes before all others of the kind.
pub proof fn law_pane_of_kind(v: DockView, kind: LeafKind, pos: NodePos, q: NodePos)
    requires
        find_leaf_spec(v, kind) == Some(pos),
    ensures
        v.leaf(pos) matches Some(leaf) && (kind is Tool ==> leaf.tabs.len() > 0 && forall|i: int|
            0 <= i < leaf.tabs.len() ==> tool_item(#[trigger] leaf.tabs[i])) && (kind is WebTool
            ==> leaf.tabs.len() > 0 && forall|i: int|
            0 <= i < leaf.tabs.len() ==> web_tool_item(#[trigger] leaf.tabs[i])) && (kind is Content
            ==> exists|i: int| 0 <= i < leaf.tabs.len() && content_item(#[trigger] leaf.tabs[i]))
            && (kind is Open ==> leaf.active < leaf.tabs.len()),
        (v.leaf(q) matches Some(leaf) && kind is Tool && leaf.tabs.len() > 0 && forall|i: int|
            0 <= i < leaf.tabs.len() ==> tool_item(#[trigger] leaf.tabs[i])) ==> pos.surface
            < q.surface || (pos.surface == q.surface && pos.node <= q.node),
        (v.leaf(q) matches Some(leaf) && kind is Content && exists|i: int|
            0 <= i < leaf.tabs.len() && content_item(#[trigger] leaf.tabs[i])) ==> pos.surface
            < q.surface || (pos.surface == q.surface && pos.node <= q.node),
{
    assert(first_leaf_of(v, kind, pos));
    assert(leaf_at_is(v, kind, pos));
    if v.leaf(q) is Some && leaf_is(kind, v.leaf(q)->0) {
        assert(leaf_at_is(v, kind, q));
    }
}

/// A page that is open is brought to the front; one that is not joins the focused pane.
/// Either way all tabs that were there stay.
pub proof fn law_shown_page_is_docked(v: DockView, tab: Tab)
    requires
        v.wf(),
        v.holds(DockTab::Outer(tab)) <==> v.find(DockTab::Outer(tab)) is Some,
    ensures
        v.holds(DockTab::Outer(tab)) ==> page_shown(v, tab).tabs() == v.tabs() && focused_tab(
            page_shown(v, tab),
        ) == Some(DockTab::Outer(tab)),
        !v.holds(DockTab::Outer(tab)) ==> page_shown(v, tab).tabs() == v.tabs().insert(
            DockTab::Outer(tab),
        ),
{
    if v.holds(DockTab::Outer(tab)) {
        law_shown_tab_is_in_front(v, DockTab::Outer(tab));
    } else {
        law_push_adds_tab(v, DockTab::Outer(tab));
    }
}

/// New panes of tools go to the right of the main area, others below it, each with one
/// tab and with the share that is left to the old panes.
pub proof fn law_new_pane_is_asked_for_beside_main_area(
    r: SplitRequest,
    dir: DockDir,
    keep: u8,
    tab: DockTab,
)
    requires
        asks_root_split(r, dir, keep, tab),
    ensures
        r.at.surface == 0 && r.at.node == 0,
        r.dir == dir && r.keep_percent == keep,
        r.tabs@.len() == 1 && r.tabs@[0] == tab,
{
}

/// A tab for the pane of tools joins that pane behind all others; without such a pane
/// one is asked for to the right, and nothing changes yet.
pub proof fn law_pushed_tool_joins_its_pane(
    before: DockView,
    kind: LeafKind,
    tab: Tab,
    r: Placement,
    after: DockView,
)
    requires
        pushed_to_pane(before, kind, tab, r, after),
    ensures
        find_leaf_spec(before, kind) is None ==> after == before && (
        r matches Placement::NeedsSplit(s) && s.dir is Right && s.tabs@ == seq![
            DockTab::Outer(tab),
        ]),
        find_leaf_spec(before, kind) matches Some(pos) ==> r == Placement::Placed(pos) && (
        after.leaf(pos) matches Some(leaf) && leaf.tabs == (before.leaf(pos)->0).tabs.push(
            DockTab::Outer(tab),
        ) && leaf.active + 1 == leaf.tabs.len()),
{
    if let Some(pos) = find_leaf_spec(before, kind) {
        assert(first_leaf_of(before, kind, pos));
        assert(leaf_at_is(before, kind, pos));
    }
}

} // verus!

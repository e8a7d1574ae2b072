//! Hiding and restoring the tool pane, and the inner docks of workspaces.

use vstd::prelude::*;
use vstd::multiset::Multiset;
use crate::commands::DockDir;
use crate::dock::{Dock, NodePos};
use crate::dock_ops::{
    close_tab, find_leaf, LeafKind, SplitRequest, TOOL_PANE_KEEP, VFS_TREE_KEEP,
};
use crate::moves::{all_tabs, append_all};
use crate::tabs::{is_plugin_item, DockTab, FileId, WorkspaceTab};
#[allow(unused_imports)]
use crate::dock::{appended, DockView};
#[allow(unused_imports)]
use crate::dock_ops::{asks_root_split, closed, find_leaf_spec};
#[allow(unused_imports)]
use crate::moves::{appended_all, law_list_has_all_tabs, tab_list};
#[allow(unused_imports)]
use crate::tabs::{plugin_item, Tab};
use crate::panes::active_focused;
#[allow(unused_imports)]
use crate::panes::focused_tab;

verus! {

/// The plugin tabs among a list, in order.
pub open spec fn tools_of(list: Seq<DockTab>) -> Seq<DockTab>
    decreases list.len(),
{
    if list.len() == 0 {
        seq![]
    } else if plugin_item(list.last()) {
        tools_of(list.drop_last()).push(list.last())
    } else {
        tools_of(list.drop_last())
    }
}

proof fn lemma_tools_counted(list: Seq<DockTab>, t: DockTab)
    ensures
        tools_of(list).to_multiset().count(t) == if plugin_item(t) {
            list.to_multiset().count(t)
        } else {
            0
        },
    decreases list.len(),
{
    broadcast use vstd::seq_lib::group_to_multiset_ensures;

    if list.len() > 0 {
        lemma_tools_counted(list.drop_last(), t);
        assert(list =~= list.drop_last().push(list.last()));
    }
}

fn pick_tools(list: &Vec<DockTab>) -> (r: Vec<DockTab>)
    ensures
        r@ == tools_of(list@),
{
    let mut out: Vec<DockTab> = Vec::new();
    let mut i: usize = 0;
    assert(list@.take(0) =~= seq![]);
    while i < list.len()
        invariant
            i <= list.len(),
            out@ == tools_of(list@.take(i as int)),
        decreases list.len() - i,
    {
        if is_plugin_item(&list[i]) {
            out.push(list[i]);
        }
        assert(list@.take(i as int + 1).drop_last() =~= list@.take(i as int));
        i = i + 1;
    }
    assert(list@.take(list@.len() as int) =~= list@);
    out
}

proof fn lemma_take_counted(s: Seq<DockTab>, i: int, t: DockTab)
    requires
        0 <= i < s.len(),
    ensures
        s.take(i).to_multiset().count(t) + (if s[i] == t {
            1nat
        } else {
            0nat
        }) <= s.to_multiset().count(t),
        s.take(i + 1).to_multiset() == s.take(i).to_multiset().insert(s[i]),
{
    broadcast use vstd::seq_lib::group_to_multiset_ensures;

    assert(s.take(i + 1) =~= s.take(i).push(s[i]));
    vstd::seq_lib::lemma_multiset_commutative(s.take(i + 1), s.skip(i + 1));
    assert(s =~= s.take(i + 1) + s.skip(i + 1));
}

/// What became of the tool pane when it was toggled.
pub enum ToolPanel {
    /// There was no tab to hide.
    Unchanged,
    /// The plugin tabs were taken out of the dock.
    Hidden,
    /// The dock area is to make the pane again with the split, and then the
    /// rest goes into it.
    Restore { split: SplitRequest, rest: Vec<DockTab> },
}

/// Whether a dock lost its plugin tabs and nothing else.
pub open spec fn lost_tools(before: DockView, after: DockView) -> bool {
    forall|t: DockTab| #[trigger]
        after.tabs().count(t) == if plugin_item(t) {
            0
        } else {
            before.tabs().count(t)
        }
}

fn hide_tools(dock: &mut Dock) -> (stash: Vec<DockTab>)
    requires
        old(dock).wf(),
    ensures
        final(dock).wf(),
        stash@ == tools_of(tab_list(old(dock)@)),
        lost_tools(old(dock)@, final(dock)@),
        stash@.len() == 0 ==> final(dock)@ == old(dock)@,
{
    let list = all_tabs(dock);
    let stash = pick_tools(&list);
    proof {
        law_list_has_all_tabs(dock@);
    }
    let mut i: usize = 0;
    assert(stash@.take(0).to_multiset() =~= Multiset::empty()) by {
        broadcast use vstd::seq_lib::group_to_multiset_ensures;

    }
    assert(dock@.tabs().add(stash@.take(0).to_multiset()) =~= old(dock)@.tabs());
    while i < stash.len()
        invariant
            i <= stash.len(),
            dock.wf(),
            stash@ == tools_of(list@),
            list@.to_multiset() == old(dock)@.tabs(),
            dock@.tabs().add(stash@.take(i as int).to_multiset()) == old(dock)@.tabs(),
            stash@.len() == 0 ==> dock@ == old(dock)@,
        decreases stash.len() - i,
    {
        let tab: DockTab = stash[i];
        proof {
            lemma_take_counted(stash@, i as int, tab);
            lemma_tools_counted(list@, tab);
        }
        assert(dock@.tabs().count(tab) > 0) by {
            assert(dock@.tabs().add(stash@.take(i as int).to_multiset()).count(tab) == old(
                dock,
            )@.tabs().count(tab));
        }
        let ghost before = dock@.tabs();
        close_tab(dock, tab);
        i = i + 1;
        assert(dock@.tabs().add(stash@.take(i as int).to_multiset()) =~= old(dock)@.tabs());
    }
    proof {
        assert(stash@.take(stash@.len() as int) =~= stash@);
        assert forall|t: DockTab| #[trigger]
            dock@.tabs().count(t) == if plugin_item(t) {
                0
            } else {
                old(dock)@.tabs().count(t)
            } by {
            lemma_tools_counted(list@, t);
            assert(dock@.tabs().add(stash@.to_multiset()).count(t) == old(dock)@.tabs().count(t));
        }
    }
    stash
}

/// Hides the plugin tabs, or brings the hidden ones back in the order in which
/// they stood. The other tabs stay, those of the tool pane among them.
pub fn toggle_tool_panel(dock: &mut Dock, hidden: &mut Vec<DockTab>) -> (r: ToolPanel)
    requires
        old(dock).wf(),
    ensures
        final(dock).wf(),
        old(hidden)@.len() > 0 ==> {
            &&& final(dock)@ == old(dock)@
            &&& final(hidden)@.len() == 0
            &&& r matches ToolPanel::Restore { split, rest } && asks_root_split(
                split,
                DockDir::Right,
                TOOL_PANE_KEEP,
                old(hidden)@[0],
            ) && rest@ == old(hidden)@.drop_first()
        },
        old(hidden)@.len() == 0 ==> {
            &&& final(hidden)@ == tools_of(tab_list(old(dock)@))
            &&& lost_tools(old(dock)@, final(dock)@)
            &&& if tools_of(tab_list(old(dock)@)).len() == 0 {
                r is Unchanged && final(dock)@ == old(dock)@
            } else {
                r is Hidden
            }
        },
{
    if hidden.len() > 0 {
        let mut rest: Vec<DockTab> = Vec::new();
        std::mem::swap(hidden, &mut rest);
        let first: DockTab = rest.remove(0);
        assert(rest@ =~= old(hidden)@.drop_first());
        let mut tabs: Vec<DockTab> = Vec::new();
        tabs.push(first);
        assert(tabs@ =~= seq![old(hidden)@[0]]);
        return ToolPanel::Restore {
            split: SplitRequest {
                at: NodePos { surface: 0, node: 0 },
                dir: DockDir::Right,
                keep_percent: TOOL_PANE_KEEP,
                tabs,
            },
            rest,
        };
    }
    let mut stash = hide_tools(dock);
    if stash.len() == 0 {
        return ToolPanel::Unchanged;
    }
    std::mem::swap(hidden, &mut stash);
    ToolPanel::Hidden
}

/// Puts the remaining hidden tabs into the pane that holds the first one.
pub fn refill_tool_pane(dock: &mut Dock, first: DockTab, rest: &Vec<DockTab>)
    requires
        old(dock).wf(),
    ensures
        final(dock).wf(),
        final(dock)@ == match old(dock)@.find(first) {
            Some(pos) => old(dock)@.with_leaf(
                pos.node_pos(),
                appended_all(old(dock)@.leaf(pos.node_pos())->0, rest@),
            ),
            None => old(dock)@,
        },
{
    if let Some(pos) = dock.find_tab(&first) {
        append_all(dock, pos.node_pos(), rest);
    }
}

/// The parent file's tab as a dock item.
pub open spec fn editor_item() -> DockTab {
    DockTab::Inner(WorkspaceTab::Editor)
}

/// The tree panel as a dock item.
pub open spec fn tree_item() -> DockTab {
    DockTab::Inner(WorkspaceTab::VfsTree)
}

/// The inner dock after an entry was opened in it: beside the parent file if
/// that is there, else in the focused leaf.
pub open spec fn entry_pushed(v: DockView, id: FileId) -> DockView {
    let entry = DockTab::Inner(WorkspaceTab::Entry(id));
    match v.find(editor_item()) {
        Some(pos) => v.with_leaf(pos.node_pos(), appended(v.leaf(pos.node_pos())->0, entry)),
        None => v.pushed(entry),
    }
}

/// Opens an entry's tab in a workspace's inner dock.
pub fn push_workspace_entry(dock: &mut Dock, file_id: FileId)
    requires
        old(dock).wf(),
    ensures
        final(dock).wf(),
        final(dock)@ == entry_pushed(old(dock)@, file_id),
{
    let entry = DockTab::Inner(WorkspaceTab::Entry(file_id));
    if let Some(pos) = dock.find_tab(&DockTab::Inner(WorkspaceTab::Editor)) {
        if dock.append_to_leaf(pos.node_pos(), entry) {
            return;
        }
    }
    dock.push_to_focused_leaf(entry);
}

pub(crate) fn tree_split() -> (r: SplitRequest)
    ensures
        asks_root_split(r, DockDir::Left, VFS_TREE_KEEP, tree_item()),
{
    let mut tabs: Vec<DockTab> = Vec::new();
    tabs.push(DockTab::Inner(WorkspaceTab::VfsTree));
    assert(tabs@ =~= seq![tree_item()]);
    SplitRequest {
        at: NodePos { surface: 0, node: 0 },
        dir: DockDir::Left,
        keep_percent: VFS_TREE_KEEP,
        tabs,
    }
}

/// Hides the tree panel of a workspace, or asks for it on the left.
pub fn toggle_workspace_vfs(dock: &mut Dock) -> (r: Option<SplitRequest>)
    requires
        old(dock).wf(),
    ensures
        final(dock).wf(),
        final(dock)@ == closed(old(dock)@, tree_item()),
        r is None <==> old(dock)@.holds(tree_item()),
        r matches Some(split) ==> asks_root_split(
            split,
            DockDir::Left,
            VFS_TREE_KEEP,
            tree_item(),
        ),
{
    if close_tab(dock, DockTab::Inner(WorkspaceTab::VfsTree)) {
        None
    } else {
        Some(tree_split())
    }
}

/// Asks for the tree panel of a workspace unless it is there.
pub fn ensure_vfs_tree_visible(dock: &Dock) -> (r: Option<SplitRequest>)
    ensures
        r is None <==> dock@.holds(tree_item()),
        r matches Some(split) ==> asks_root_split(
            split,
            DockDir::Left,
            VFS_TREE_KEEP,
            tree_item(),
        ),
{
    match dock.find_tab(&DockTab::Inner(WorkspaceTab::VfsTree)) {
        Some(_) => None,
        None => Some(tree_split()),
    }
}

/// Whether nothing but the parent file's tab is left in a workspace.
pub fn only_editor_left(dock: &Dock) -> (r: bool)
    ensures
        r == (tab_list(dock@) == seq![editor_item()]),
{
    let list = all_tabs(dock);
    let r: bool = list.len() == 1 && list[0] == DockTab::Inner(WorkspaceTab::Editor);
    proof {
        if r {
            assert(list@ =~= seq![editor_item()]);
        } else {
            assert(seq![editor_item()].len() == 1 && seq![editor_item()][0] == editor_item());
        }
    }
    r
}

/// The entry files among a list of tabs, in order.
pub open spec fn entries_of(list: Seq<DockTab>) -> Seq<FileId>
    decreases list.len(),
{
    if list.len() == 0 {
        seq![]
    } else {
        match list.last() {
            DockTab::Inner(WorkspaceTab::Entry(id)) => entries_of(list.drop_last()).push(id),
            _ => entries_of(list.drop_last()),
        }
    }
}

/// The entry files that a workspace has open.
pub fn workspace_entries(dock: &Dock) -> (r: Vec<FileId>)
    ensures
        r@ == entries_of(tab_list(dock@)),
{
    let list = all_tabs(dock);
    let mut out: Vec<FileId> = Vec::new();
    let mut i: usize = 0;
    assert(list@.take(0) =~= seq![]);
    while i < list.len()
        invariant
            i <= list.len(),
            out@ == entries_of(list@.take(i as int)),
        decreases list.len() - i,
    {
        if let DockTab::Inner(WorkspaceTab::Entry(id)) = list[i] {
            out.push(id);
        }
        assert(list@.take(i as int + 1).drop_last() =~= list@.take(i as int));
        i = i + 1;
    }
    assert(list@.take(list@.len() as int) =~= list@);
    out
}

/// The tab that a workspace is about: the open one of its focused pane, or that
/// of the first pane where none has the focus.
pub open spec fn inner_tab(v: DockView) -> Option<DockTab> {
    match focused_tab(v) {
        Some(tab) => Some(tab),
        None => match find_leaf_spec(v, LeafKind::Open) {
            Some(pos) => Some((v.leaf(pos)->0).tabs[(v.leaf(pos)->0).active as int]),
            None => None,
        },
    }
}

/// The file that commands act on while a workspace has the focus: that of the
/// tab it is about, or the mounted file where that tab is no file's.
pub open spec fn inner_active(v: DockView, editor_id: FileId) -> FileId {
    match inner_tab(v) {
        Some(DockTab::Inner(WorkspaceTab::Entry(id))) => id,
        _ => editor_id,
    }
}

fn find_inner_tab(dock: &Dock) -> (r: Option<DockTab>)
    requires
        dock.wf(),
    ensures
        r == inner_tab(dock@),
{
    if let Some(tab) = active_focused(dock) {
        return Some(tab);
    }
    match find_leaf(dock, LeafKind::Open) {
        Some(pos) => match dock.leaf(pos) {
            Some(leaf) => Some(leaf.0[leaf.1]),
            None => None,
        },
        None => None,
    }
}

/// The file that commands act on while a workspace has the focus.
pub fn inner_active_file(dock: &Dock, editor_id: FileId) -> (r: FileId)
    requires
        dock.wf(),
    ensures
        r == inner_active(dock@, editor_id),
{
    match find_inner_tab(dock) {
        Some(DockTab::Inner(WorkspaceTab::Entry(id))) => id,
        _ => editor_id,
    }
}

/// Hiding the tool panel takes every tab of plugins and their mounts and no other,
/// keeps them in order, and each of them can be brought back.
pub proof fn law_hidden_tabs_are_those_of_plugins(list: Seq<DockTab>, tab: DockTab)
    ensures
        tools_of(seq![]) == Seq::<DockTab>::empty(),
        (tab matches DockTab::Outer(Tab::Plugins)) || (tab matches DockTab::Outer(
            Tab::PluginMount(_),
        )) ==> tools_of(list.push(tab)) == tools_of(list).push(tab),
        !((tab matches DockTab::Outer(Tab::Plugins)) || (tab matches DockTab::Outer(
            Tab::PluginMount(_),
        ))) ==> tools_of(list.push(tab)) == tools_of(list),
{
    assert(list.push(tab).drop_last() =~= list);
}

/// The entries that a workspace has open are those of its tabs that are entries, in
/// order.
pub proof fn law_entries_are_open_tabs(list: Seq<DockTab>, tab: DockTab)
    ensures
        entries_of(seq![]) == Seq::<FileId>::empty(),
        tab matches DockTab::Inner(WorkspaceTab::Entry(id)) ==> entries_of(list.push(tab))
            == entries_of(list).push(id),
        !(tab matches DockTab::Inner(WorkspaceTab::Entry(_))) ==> entries_of(list.push(tab))
            == entries_of(list),
{
    assert(list.push(tab).drop_last() =~= list);
}

/// With an entry in front inside a workspace commands act on it, with anything else on
/// the file that the workspace mounts.
pub proof fn law_commands_act_on_inner_file(v: DockView, editor_id: FileId, id: FileId)
    ensures
        focused_tab(v) == Some(DockTab::Inner(WorkspaceTab::Entry(id))) ==> inner_active(
            v,
            editor_id,
        ) == id,
        focused_tab(v) == Some(DockTab::Inner(WorkspaceTab::Editor)) ==> inner_active(v, editor_id)
            == editor_id,
        focused_tab(v) == Some(DockTab::Inner(WorkspaceTab::VfsTree)) ==> inner_active(v, editor_id)
            == editor_id,
{
}

/// An entry that is opened joins the pane of the file that is mounted, behind its tabs,
/// and is open there; other panes stay. Without that pane it joins the focused one.
pub proof fn law_entry_joins_mounted_file(v: DockView, id: FileId, at: NodePos)
    requires
        v.wf(),
    ensures
        v.find(DockTab::Inner(WorkspaceTab::Editor)) matches Some(pos) ==> {
            let after = entry_pushed(v, id);
            let leaf = v.leaf(pos.node_pos())->0;
            &&& after.leaf(pos.node_pos()) matches Some(l) && l.tabs == leaf.tabs.push(
                DockTab::Inner(WorkspaceTab::Entry(id)),
            ) && l.active == leaf.tabs.len()
            &&& at != pos.node_pos() ==> after.leaf(at) == v.leaf(at)
        },
        v.find(DockTab::Inner(WorkspaceTab::Editor)) is None ==> entry_pushed(v, id).tabs()
            == v.tabs().insert(DockTab::Inner(WorkspaceTab::Entry(id))),
{
    match v.find(DockTab::Inner(WorkspaceTab::Editor)) {
        Some(pos) => {
            assert(v.first_at(DockTab::Inner(WorkspaceTab::Editor), pos));
        },
        None => {
            crate::dock::law_push_adds_tab(v, DockTab::Inner(WorkspaceTab::Entry(id)));
        },
    }
}

} // verus!

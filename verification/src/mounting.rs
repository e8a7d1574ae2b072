//! Mounts: files that become workspaces, mounts that plugins make, and entries
//! opened from either.

use vstd::prelude::*;
use vstd::string::*;
use crate::dock::{Dock, NodePos};
#[allow(unused_imports)]
use crate::dock::{appended, DockView};
use crate::dock_ops::{focus_tab, push_tool_tab, take_place, Placement, SplitRequest};
#[allow(unused_imports)]
use crate::dock_ops::{
    asks_root_split, find_leaf_spec, in_place_of, shown, LeafKind, TOOL_PANE_KEEP, VFS_TREE_KEEP,
};
use crate::opening::{
    create_open_file, record_open, spawn_workspace, OpenRequest, Opened,
};
#[allow(unused_imports)]
use crate::opening::{file_made, must_lock, opened_to, workspace_made};
use crate::panes::{active_focused, focus_content_leaf, remove_welcome_from_leaf};
#[allow(unused_imports)]
use crate::panes::{content_target, focused_tab, welcome_removed};
use crate::session::{
    active_file_id, find_file, find_file_by_source, find_mount, find_shown_in, find_workspace, HxyApp,
    MountStatus, MountedPlugin, PendingDuplicate, Workspace,
};
#[allow(unused_imports)]
use crate::session::{
    active_file, after_active_file, dock_changed, file_at, file_with_source, mount_at,
    opened_in_leaf, shown_in, workspace_at,
};
use crate::source::{entry_name, find_tab_state, OpenTabState, TabSource};
#[allow(unused_imports)]
use crate::source::{leaf_name, sources_distinct, tab_index, tab_recorded, SourceView};
use crate::tabs::{DockTab, FileId, MountId, OpenTarget, Tab, WorkspaceId};
use crate::tool_pane::{ensure_vfs_tree_visible, push_workspace_entry};
#[allow(unused_imports)]
use crate::tool_pane::{entry_pushed, tree_item};

verus! {

/// Whether it is told that a file on disk can be opened right away, or the request was kept.
pub open spec fn open_requested(
    before: HxyApp,
    display_name: String,
    path: Seq<char>,
    r: bool,
    after: HxyApp,
) -> bool {
    &&& r == (file_with_source(before.files@, SourceView::Filesystem(path)) is None)
    &&& r ==> after == before
    &&& !r ==> {
        let i = file_with_source(before.files@, SourceView::Filesystem(path))->0;
        &&& after == (HxyApp {
            pending_duplicate: after.pending_duplicate,
            ..before
        })
        &&& after.pending_duplicate matches Some(p) && p.display_name == display_name
            && p.path@ == path && p.existing == before.files@[i].id
    }
}

impl HxyApp {
    /// Asks whether a file on disk can be opened right away. Where it is open
    /// already the request is kept until the user says whether to focus that tab
    /// or to open it a second time.
    pub fn request_open_filesystem(&mut self, display_name: String, path: String) -> (r: bool)
        requires
            old(self).wf(),
        ensures
            final(self).wf(),
            open_requested(*old(self), display_name, path@, r, *final(self)),
    {
        let source = TabSource::Filesystem(path);
        match find_file_by_source(&self.files, &source) {
            Some(i) => {
                let path = match source {
                    TabSource::Filesystem(p) => p,
                    _ => String::new(),
                };
                self.pending_duplicate = Some(
                    PendingDuplicate { display_name, path, existing: self.files[i].id },
                );
                false
            },
            None => true,
        }
    }
}

/// The tabs to open again with the workspace mark of one set.
pub open spec fn workspace_marked(tabs: Seq<OpenTabState>, source: SourceView, mark: bool) -> Seq<
    OpenTabState,
> {
    match tab_index(tabs, source) {
        Some(i) => tabs.update(i, OpenTabState { as_workspace: mark, ..tabs[i] }),
        None => tabs,
    }
}

/// Sets whether a remembered tab opens as a workspace.
pub fn mark_workspace(tabs: &mut Vec<OpenTabState>, source: &TabSource, mark: bool)
    ensures
        final(tabs)@ == workspace_marked(old(tabs)@, source@, mark),
        sources_distinct(old(tabs)@) ==> sources_distinct(final(tabs)@),
{
    if let Some(i) = find_tab_state(tabs, source) {
        tabs[i].as_workspace = mark;
        assert(tabs@ =~= workspace_marked(old(tabs)@, source@, mark));
        proof {
            if sources_distinct(old(tabs)@) {
                assert forall|a: int, b: int| 0 <= a < b < tabs@.len() implies (
                #[trigger] tabs@[a]).source@ != (#[trigger] tabs@[b]).source@ by {
                    assert(old(tabs)@[a].source@ != old(tabs)@[b].source@);
                }
            }
        }
    }
}

/// The tabs to open again with the workspace mark of a file set.
pub open spec fn file_marked(app: HxyApp, id: FileId, mark: bool) -> Seq<OpenTabState> {
    match file_at(app.files@, id) {
        Some(i) => match app.files@[i].source {
            Some(s) => workspace_marked(app.open_tabs@, s@, mark),
            None => app.open_tabs@,
        },
        None => app.open_tabs@,
    }
}

/// Sets whether a file opens as a workspace at the next start.
pub fn mark_file(app: &mut HxyApp, id: FileId, mark: bool)
    requires
        old(app).wf(),
    ensures
        final(app).wf(),
        *final(app) == (HxyApp { open_tabs: final(app).open_tabs, ..*old(app) }),
        final(app).open_tabs@ == file_marked(*old(app), id, mark),
{
    if let Some(i) = find_file(&app.files, id) {
        let source = match &app.files[i].source {
            Some(s) => s.clone(),
            None => {
                return;
            },
        };
        mark_workspace(&mut app.open_tabs, &source, mark);
    }
}

/// What browsing the active file comes to.
pub enum MountPlan {
    /// The tree panel of a workspace is asked for where it is hidden.
    ShowTree { workspace_id: WorkspaceId, split: Option<SplitRequest> },
    /// The file is to be mounted by what the name tells.
    Mount { file_id: FileId, handler: String },
    Nothing,
}

/// Whether a plan asks for the tree of a workspace, where it is not shown.
pub open spec fn tree_planned(app: HxyApp, i: int, plan: MountPlan) -> bool {
    plan matches MountPlan::ShowTree { workspace_id, split } && workspace_id
        == app.workspaces@[i].id && (split is None <==> app.workspaces@[i].dock@.holds(tree_item()))
        && (split matches Some(s) ==> asks_root_split(
        s,
        crate::commands::DockDir::Left,
        VFS_TREE_KEEP,
        tree_item(),
    ))
}

/// Whether a plan mounts a file, where something can mount it.
pub open spec fn file_mount_planned(app: HxyApp, id: FileId, plan: MountPlan) -> bool {
    match file_at(app.files@, id) {
        Some(i) => match app.files@[i].handler {
            Some(h) => plan matches MountPlan::Mount { file_id, handler } && file_id == id
                && handler == h,
            None => plan is Nothing,
        },
        None => plan is Nothing,
    }
}

/// Whether a plan is what browsing the active tab comes to. A focused file is
/// mounted where something can mount it, and a focused workspace shows its tree.
/// With another tab in focus the active file counts: it is mounted, or the
/// workspace that shows it shows its tree.
pub open spec fn mount_planned(before: HxyApp, plan: MountPlan, after: HxyApp) -> bool {
    match focused_tab(before.dock@) {
        Some(DockTab::Outer(Tab::Workspace(id))) => {
            &&& after == (HxyApp { last_active_workspace: Some(id), ..before })
            &&& match workspace_at(before.workspaces@, id) {
                Some(i) => tree_planned(before, i, plan),
                None => plan is Nothing,
            }
        },
        Some(DockTab::Outer(Tab::File(id))) => {
            &&& after == (HxyApp { last_active_file: Some(id), ..before })
            &&& file_mount_planned(before, id, plan)
        },
        _ => {
            &&& after == after_active_file(before)
            &&& match active_file(before) {
                Some(id) => match shown_in(before.workspaces@, id) {
                    Some(hit) => tree_planned(before, hit.0, plan),
                    None => file_mount_planned(before, id, plan),
                },
                None => plan is Nothing,
            }
        },
    }
}

fn plan_tree(app: &HxyApp, i: usize) -> (r: MountPlan)
    requires
        i < app.workspaces@.len(),
    ensures
        tree_planned(*app, i as int, r),
{
    MountPlan::ShowTree {
        workspace_id: app.workspaces[i].id,
        split: ensure_vfs_tree_visible(&app.workspaces[i].dock),
    }
}

fn plan_file_mount(app: &HxyApp, id: FileId) -> (r: MountPlan)
    ensures
        file_mount_planned(*app, id, r),
{
    match find_file(&app.files, id) {
        Some(i) => match &app.files[i].handler {
            Some(h) => MountPlan::Mount { file_id: id, handler: h.clone() },
            None => MountPlan::Nothing,
        },
        None => MountPlan::Nothing,
    }
}

/// Decides what browsing the active tab comes to.
pub fn mount_active_file(app: &mut HxyApp) -> (r: MountPlan)
    requires
        old(app).wf(),
    ensures
        final(app).wf(),
        mount_planned(*old(app), r, *final(app)),
{
    match active_focused(&app.dock) {
        Some(DockTab::Outer(Tab::Workspace(id))) => {
            app.last_active_workspace = Some(id);
            match find_workspace(&app.workspaces, id) {
                Some(i) => plan_tree(app, i),
                None => MountPlan::Nothing,
            }
        },
        Some(DockTab::Outer(Tab::File(id))) => {
            app.last_active_file = Some(id);
            plan_file_mount(app, id)
        },
        _ => match active_file_id(app) {
            Some(id) => match find_shown_in(&app.workspaces, id) {
                Some((i, _)) => plan_tree(app, i),
                None => plan_file_mount(app, id),
            },
            None => MountPlan::Nothing,
        },
    }
}

/// A focused file that something can mount is mounted, whatever else is open.
pub proof fn law_focused_file_is_mounted(before: HxyApp, plan: MountPlan, after: HxyApp, i: int)
    requires
        mount_planned(before, plan, after),
        focused_tab(before.dock@) == Some(DockTab::Outer(Tab::File(before.files@[i].id))),
        file_at(before.files@, before.files@[i].id) == Some(i),
        before.files@[i].handler is Some,
    ensures
        plan == (MountPlan::Mount {
            file_id: before.files@[i].id,
            handler: before.files@[i].handler->0,
        }),
{
}

/// The dock after a file's tab gave way to that of the workspace around it, which
/// stands in its place and has the focus.
pub open spec fn swapped_for_workspace(v: DockView, id: FileId, wid: WorkspaceId) -> DockView {
    let file = DockTab::Outer(Tab::File(id));
    let workspace = DockTab::Outer(Tab::Workspace(wid));
    let swapped = in_place_of(v, file, workspace);
    match v.find(file) {
        Some(pos) => swapped.focused_on(pos.node_pos()),
        None => shown(swapped, workspace),
    }
}

/// Whether a file that was mounted became a workspace.
pub open spec fn file_mounted(
    before: HxyApp,
    file_id: FileId,
    writable: bool,
    r: (WorkspaceId, SplitRequest),
    after: HxyApp,
) -> bool {
    &&& r.0 == WorkspaceId(before.next_workspace_id)
    &&& asks_root_split(r.1, crate::commands::DockDir::Left, VFS_TREE_KEEP, tree_item())
    &&& after == (HxyApp {
        next_workspace_id: (before.next_workspace_id + 1) as u64,
        workspaces: after.workspaces,
        dock: after.dock,
        open_tabs: after.open_tabs,
        ..before
    })
    &&& after.workspaces@.len() == before.workspaces@.len() + 1
    &&& after.workspaces@.drop_last() == before.workspaces@
    &&& workspace_made(r.0, file_id, writable, after.workspaces@.last())
    &&& after.dock@ == swapped_for_workspace(before.dock@, file_id, r.0)
    &&& after.open_tabs@ == file_marked(before, file_id, true)
}

/// Turns a file that was mounted into a workspace: its tab gives way to the
/// workspace's, which comes to the front, and the next start opens it so.
pub fn finish_mount(app: &mut HxyApp, file_id: FileId, writable: bool) -> (r: (
    WorkspaceId,
    SplitRequest,
))
    requires
        old(app).wf(),
        old(app).next_workspace_id < u64::MAX,
    ensures
        final(app).wf(),
        file_mounted(*old(app), file_id, writable, r, *final(app)),
{
    let (wid, split) = spawn_workspace(app, file_id, writable);
    let tab = DockTab::Outer(Tab::Workspace(wid));
    match take_place(&mut app.dock, DockTab::Outer(Tab::File(file_id)), tab) {
        Some(at) => {
            app.dock.set_focus(at);
        },
        None => {
            focus_tab(&mut app.dock, tab);
        },
    }
    mark_file(app, file_id, true);
    (wid, split)
}

/// Whether one editor is another in which a file was opened inside a
/// workspace: beside the mounted file, or as a tab of the dock where the
/// workspace is gone.
pub open spec fn entry_opened(
    before: HxyApp,
    req: OpenRequest,
    workspace_id: WorkspaceId,
    id: FileId,
    after: HxyApp,
) -> bool {
    &&& id == FileId(before.next_file_id)
    &&& after == (HxyApp {
        next_file_id: (before.next_file_id + 1) as u64,
        files: after.files,
        workspaces: after.workspaces,
        dock: after.dock,
        open_tabs: after.open_tabs,
        ..before
    })
    &&& after.files@.len() == before.files@.len() + 1
    &&& after.files@.drop_last() == before.files@
    &&& file_made(req, id, must_lock(before, req.source), after.files@.last())
    &&& crate::opening::tabs_after_open(before.open_tabs@, req, false, after.open_tabs@)
    &&& match workspace_at(before.workspaces@, workspace_id) {
        Some(i) => after.dock == before.dock && dock_changed(
            before.workspaces@,
            i,
            entry_pushed(before.workspaces@[i].dock@, id),
            after.workspaces@,
        ),
        None => after.workspaces == before.workspaces && after.dock@ == before.dock@.pushed(
            DockTab::Outer(Tab::File(id)),
        ),
    }
}

fn push_entry(list: &mut Vec<Workspace>, i: usize, id: FileId)
    requires
        i < old(list)@.len(),
        old(list)@[i as int].dock.wf(),
    ensures
        dock_changed(
            old(list)@,
            i as int,
            entry_pushed(old(list)@[i as int].dock@, id),
            final(list)@,
        ),
        final(list)@[i as int].dock.wf(),
{
    push_workspace_entry(&mut list[i].dock, id);
}

/// Opens a file inside a workspace.
pub fn open_in_workspace(app: &mut HxyApp, req: OpenRequest, workspace_id: WorkspaceId) -> (r:
    FileId)
    requires
        old(app).wf(),
        old(app).next_file_id < u64::MAX,
    ensures
        final(app).wf(),
        entry_opened(*old(app), req, workspace_id, r, *final(app)),
{
    let source = match &req.source {
        Some(s) => Some(s.clone()),
        None => None,
    };
    let selection = req.selection;
    let scroll = req.scroll;
    let id = create_open_file(app, req);
    match find_workspace(&app.workspaces, workspace_id) {
        Some(i) => push_entry(&mut app.workspaces, i, id),
        None => app.dock.push_to_focused_leaf(DockTab::Outer(Tab::File(id))),
    }
    record_open(&mut app.open_tabs, &source, selection, scroll, false);
    id
}

/// Whether a file was opened where it was asked for.
pub open spec fn opened_where_asked(
    before: HxyApp,
    req: OpenRequest,
    target: OpenTarget,
    r: FileId,
    after: HxyApp,
) -> bool {
    &&& r == FileId(before.next_file_id)
    &&& match target {
        OpenTarget::Toplevel => exists|done: Opened|
            done.id == r && #[trigger] opened_to(before, req, None, done, after),
        OpenTarget::Workspace(id) => entry_opened(before, req, id, r, after),
    }
}

impl HxyApp {
    /// Opens a file where it is asked for.
    pub fn open_with_target(&mut self, req: OpenRequest, target: OpenTarget) -> (r: FileId)
        requires
            old(self).wf(),
            old(self).next_file_id < u64::MAX,
            old(self).next_workspace_id < u64::MAX,
        ensures
            final(self).wf(),
            opened_where_asked(*old(self), req, target, r, *final(self)),
    {
        match target {
            OpenTarget::Toplevel => {
                let ghost asked = req;
                let done = self.open(req, false, None);
                assert(opened_to(*old(self), asked, None, done, *self));
                done.id
            },
            OpenTarget::Workspace(id) => open_in_workspace(self, req, id),
        }
    }
}

/// An entry that is to be opened from a workspace or a plugin's mount.
pub enum PendingVfsOpen {
    Workspace { workspace_id: WorkspaceId, entry_path: String },
    PluginMount { mount_id: MountId, entry_path: String },
}

/// Where an entry's bytes are read from, and what its tab is called.
pub struct EntryPlan {
    pub source: TabSource,
    pub name: String,
    pub target: OpenTarget,
}

/// The source that the entries of a workspace or mount belong to.
pub open spec fn parent_of(app: HxyApp, req: PendingVfsOpen) -> Option<SourceView> {
    match req {
        PendingVfsOpen::Workspace { workspace_id, .. } => match workspace_at(
            app.workspaces@,
            workspace_id,
        ) {
            Some(w) => match file_at(app.files@, app.workspaces@[w].editor_id) {
                Some(i) => match app.files@[i].source {
                    Some(s) => Some(s@),
                    None => None,
                },
                None => None,
            },
            None => None,
        },
        PendingVfsOpen::PluginMount { mount_id, .. } => match mount_at(app.mounts@, mount_id) {
            Some(i) => Some(mount_source(app.mounts@[i])),
            None => None,
        },
    }
}

/// The path of an entry that is to be opened.
pub open spec fn entry_path_of(req: PendingVfsOpen) -> Seq<char> {
    match req {
        PendingVfsOpen::Workspace { entry_path, .. } => entry_path@,
        PendingVfsOpen::PluginMount { entry_path, .. } => entry_path@,
    }
}

/// The source of a plugin's mount.
pub open spec fn mount_source(m: MountedPlugin) -> SourceView {
    SourceView::PluginMount {
        plugin_name: m.plugin_name@,
        token: m.token@,
        title: m.display_name@,
    }
}

fn source_of_mount(m: &MountedPlugin) -> (r: TabSource)
    ensures
        r@ == mount_source(*m),
{
    TabSource::PluginMount {
        plugin_name: m.plugin_name.clone(),
        token: m.token.clone(),
        title: m.display_name.clone(),
    }
}

/// Whether the opening of an entry was planned.
pub open spec fn vfs_open_planned(
    app: HxyApp,
    req: PendingVfsOpen,
    r: Option<EntryPlan>,
) -> bool {
    &&& match (parent_of(app, req), r) {
        (Some(parent), Some(plan)) => {
            &&& plan.source@ == (SourceView::VfsEntry {
                parent: Box::new(parent),
                entry_path: entry_path_of(req),
            })
            &&& plan.name@ == leaf_name(entry_path_of(req))
            &&& plan.target == match req {
                PendingVfsOpen::Workspace { workspace_id, .. } => OpenTarget::Workspace(
                    workspace_id,
                ),
                PendingVfsOpen::PluginMount { .. } => OpenTarget::Toplevel,
            }
        },
        (None, None) => true,
        _ => false,
    }
}

/// Plans the opening of an entry: an entry of a workspace opens inside it, one
/// of a plugin's mount in the editing area. Nothing comes of it where the
/// workspace, its file's source or the mount is gone.
pub fn plan_vfs_open(app: &HxyApp, req: &PendingVfsOpen) -> (r: Option<EntryPlan>)
    ensures
        vfs_open_planned(*app, *req, r),
{
    match req {
        PendingVfsOpen::Workspace { workspace_id, entry_path } => {
            let w: usize = match find_workspace(&app.workspaces, *workspace_id) {
                Some(w) => w,
                None => {
                    return None;
                },
            };
            let i: usize = match find_file(&app.files, app.workspaces[w].editor_id) {
                Some(i) => i,
                None => {
                    return None;
                },
            };
            match &app.files[i].source {
                Some(parent) => Some(
                    EntryPlan {
                        name: entry_name(entry_path.as_str()),
                        source: TabSource::VfsEntry {
                            parent: Box::new(parent.clone()),
                            entry_path: entry_path.clone(),
                        },
                        target: OpenTarget::Workspace(*workspace_id),
                    },
                ),
                None => None,
            }
        },
        PendingVfsOpen::PluginMount { mount_id, entry_path } => match find_mount(
            &app.mounts,
            *mount_id,
        ) {
            Some(i) => Some(
                EntryPlan {
                    name: entry_name(entry_path.as_str()),
                    source: TabSource::VfsEntry {
                        parent: Box::new(source_of_mount(&app.mounts[i])),
                        entry_path: entry_path.clone(),
                    },
                    target: OpenTarget::Toplevel,
                },
            ),
            None => None,
        },
    }
}

/// The dock once focus went to the editing area.
pub open spec fn content_focused(v: DockView, last: Option<NodePos>) -> DockView {
    match content_target(v, last) {
        Some(pos) => v.focused_on(pos),
        None => v,
    }
}

/// Whether an entry whose bytes were read was opened.
pub open spec fn vfs_opened(
    before: HxyApp,
    plan: EntryPlan,
    bytes: Vec<u8>,
    handler: Option<String>,
    r: FileId,
    after: HxyApp,
) -> bool {
    &&& r == FileId(before.next_file_id)
    &&& exists|req: OpenRequest| #[trigger]
        asks_entry(req, plan, bytes, handler) && match plan.target {
            OpenTarget::Workspace(id) => entry_opened(before, req, id, r, after),
            OpenTarget::Toplevel => exists|mid: HxyApp, done: Opened|
                {
                    &&& mid == (HxyApp {
                        dock: mid.dock,
                        last_content_leaf: mid.last_content_leaf,
                        ..before
                    })
                    &&& mid.dock@ == content_focused(
                        before.dock@,
                        before.last_content_leaf,
                    )
                    &&& done.id == r
                    &&& #[trigger] opened_to(mid, req, None, done, after)
                },
        }
}

/// Opens an entry whose bytes were read. One of a plugin's mount takes focus
/// to the editing area first, because the click came from a tool pane.
pub fn finish_vfs_open(app: &mut HxyApp, plan: EntryPlan, bytes: Vec<u8>, handler: Option<String>)
    -> (r: FileId)
    requires
        old(app).wf(),
        old(app).next_file_id < u64::MAX,
        old(app).next_workspace_id < u64::MAX,
    ensures
        final(app).wf(),
        vfs_opened(*old(app), plan, bytes, handler, r, *final(app)),
{
    let req = OpenRequest {
        display_name: plan.name,
        source: Some(plan.source),
        bytes,
        selection: None,
        scroll: None,
        handler,
        suggested_template: None,
        parent_dir: None,
        loading: false,
    };
    let ghost asked = req;
    assert(asks_entry(asked, plan, bytes, handler));
    match plan.target {
        OpenTarget::Workspace(id) => open_in_workspace(app, req, id),
        OpenTarget::Toplevel => {
            focus_content_leaf(&mut app.dock, &mut app.last_content_leaf);
            let ghost mid = *app;
            let done = app.open(req, false, None);
            assert(opened_to(mid, asked, None, done, *app));
            done.id
        },
    }
}

/// Whether a request asks for an entry that was planned.
pub open spec fn asks_entry(
    req: OpenRequest,
    plan: EntryPlan,
    bytes: Vec<u8>,
    handler: Option<String>,
) -> bool {
    &&& req.display_name == plan.name
    &&& req.source == Some(plan.source)
    &&& req.bytes == bytes
    &&& req.selection is None
    &&& req.scroll is None
    &&& req.handler == handler
    &&& req.suggested_template is None
    &&& !req.loading
}

/// The dock after a mount's tab joined the tool pane at a place and the
/// placeholder page stepped aside.
pub open spec fn mount_placed(v: DockView, pos: NodePos, tab: DockTab) -> DockView {
    let joined = v.with_leaf(pos, appended(v.leaf(pos)->0, tab));
    match joined.find(tab) {
        Some(at) => welcome_removed(joined, at.node_pos()),
        None => joined,
    }
}

fn place_mount(dock: &mut Dock, id: MountId) -> (r: Placement)
    requires
        old(dock).wf(),
    ensures
        final(dock).wf(),
        match (find_leaf_spec(old(dock)@, LeafKind::Tool), r) {
            (Some(pos), Placement::Placed(at)) => at == pos && final(dock)@ == mount_placed(
                old(dock)@,
                pos,
                DockTab::Outer(Tab::PluginMount(id)),
            ),
            (None, Placement::NeedsSplit(split)) => final(dock)@ == old(dock)@ && asks_root_split(
                split,
                crate::commands::DockDir::Right,
                TOOL_PANE_KEEP,
                DockTab::Outer(Tab::PluginMount(id)),
            ),
            _ => false,
        },
{
    match push_tool_tab(dock, Tab::PluginMount(id)) {
        Placement::Placed(pos) => {
            if let Some(at) = dock.find_tab(&DockTab::Outer(Tab::PluginMount(id))) {
                remove_welcome_from_leaf(dock, at.node_pos());
            }
            Placement::Placed(pos)
        },
        Placement::NeedsSplit(split) => Placement::NeedsSplit(split),
    }
}

/// Whether one editor is another in which a mount was added.
pub open spec fn mount_added(
    before: HxyApp,
    plugin_name: String,
    token: String,
    title: String,
    status: MountStatus,
    after: HxyApp,
) -> bool {
    &&& after.next_mount_id == before.next_mount_id + 1
    &&& after.mounts@.len() == before.mounts@.len() + 1
    &&& after.mounts@.drop_last() == before.mounts@
    &&& after.mounts@.last() == (MountedPlugin {
        id: MountId(before.next_mount_id),
        display_name: title,
        plugin_name,
        token,
        status,
    })
}

fn add_mount(
    app: &mut HxyApp,
    plugin_name: String,
    token: String,
    title: String,
    status: MountStatus,
) -> (r: MountId)
    requires
        old(app).wf(),
        old(app).next_mount_id < u64::MAX,
    ensures
        final(app).wf(),
        r == MountId(old(app).next_mount_id),
        mount_added(*old(app), plugin_name, token, title, status, *final(app)),
        *final(app) == (HxyApp {
            next_mount_id: final(app).next_mount_id,
            mounts: final(app).mounts,
            ..*old(app)
        }),
{
    let id = MountId(app.next_mount_id);
    app.next_mount_id = app.next_mount_id + 1;
    app.mounts.push(MountedPlugin { id, display_name: title, plugin_name, token, status });
    assert(app.mounts@.drop_last() =~= old(app).mounts@);
    id
}

/// The dock after a mount's tab was brought to the front of the tool pane.
pub open spec fn mount_shown(v: DockView, pos: NodePos, tab: DockTab) -> DockView {
    opened_in_leaf(mount_placed(v, pos, tab), tab).focused_on(pos)
}

/// Whether one editor is another in which a mount that a plugin made has its
/// tab in front of the tool pane and is remembered. A pane for it is asked for
/// where there is none.
pub open spec fn mount_installed(
    before: HxyApp,
    plugin_name: String,
    token: String,
    title: String,
    writable: bool,
    r: (MountId, Option<SplitRequest>),
    after: HxyApp,
) -> bool {
    &&& r.0 == MountId(before.next_mount_id)
    &&& mount_added(
        before,
        plugin_name,
        token,
        title,
        MountStatus::Ready { writable },
        after,
    )
    &&& after == (HxyApp {
        next_mount_id: after.next_mount_id,
        mounts: after.mounts,
        dock: after.dock,
        open_tabs: after.open_tabs,
        ..before
    })
    &&& ({
        let source = SourceView::PluginMount {
            plugin_name: plugin_name@,
            token: token@,
            title: title@,
        };
        if tab_recorded(before.open_tabs@, source) {
            after.open_tabs@ == before.open_tabs@
        } else {
            &&& after.open_tabs@.len() == before.open_tabs@.len() + 1
            &&& after.open_tabs@.drop_last() == before.open_tabs@
            &&& after.open_tabs@.last().source@ == source
            &&& after.open_tabs@.last().selection is None
            &&& after.open_tabs@.last().scroll == 0
            &&& !after.open_tabs@.last().as_workspace
            &&& !after.open_tabs@.last().visualizer_open
        }
    })
    &&& match find_leaf_spec(before.dock@, LeafKind::Tool) {
        Some(pos) => r.1 is None && after.dock@ == mount_shown(
            before.dock@,
            pos,
            DockTab::Outer(Tab::PluginMount(r.0)),
        ),
        None => after.dock@ == before.dock@ && (r.1 matches Some(split)
            && asks_root_split(
            split,
            crate::commands::DockDir::Right,
            TOOL_PANE_KEEP,
            DockTab::Outer(Tab::PluginMount(r.0)),
        )),
    }
}

/// Shows a mount that a plugin has just made as a tab of the tool pane, in
/// front, and remembers it for the next start. Where there is no tool pane the
/// split that makes one is handed back.
pub fn install_mount_tab(
    app: &mut HxyApp,
    plugin_name: String,
    token: String,
    title: String,
    writable: bool,
) -> (r: (MountId, Option<SplitRequest>))
    requires
        old(app).wf(),
        old(app).next_mount_id < u64::MAX,
    ensures
        final(app).wf(),
        mount_installed(*old(app), plugin_name, token, title, writable, r, *final(app)),
{
    let source = Some(
        TabSource::PluginMount {
            plugin_name: plugin_name.clone(),
            token: token.clone(),
            title: title.clone(),
        },
    );
    let id = add_mount(app, plugin_name, token, title, MountStatus::Ready { writable });
    record_open(&mut app.open_tabs, &source, None, None, false);
    let tab = DockTab::Outer(Tab::PluginMount(id));
    match place_mount(&mut app.dock, id) {
        Placement::Placed(pos) => {
            if let Some(at) = app.dock.find_tab(&tab) {
                app.dock.set_active_tab(at);
            }
            app.dock.set_focus(pos);
            (id, None)
        },
        Placement::NeedsSplit(split) => (id, Some(split)),
    }
}

/// Whether one editor is another in which a mount of an earlier run has its tab
/// back: in the tool pane, or in one that is asked for where there is none.
pub open spec fn mount_restored(
    before: HxyApp,
    plugin_name: String,
    token: String,
    title: String,
    status: MountStatus,
    id: MountId,
    split: Option<SplitRequest>,
    after: HxyApp,
) -> bool {
    &&& id == MountId(before.next_mount_id)
    &&& mount_added(before, plugin_name, token, title, status, after)
    &&& after == (HxyApp {
        next_mount_id: after.next_mount_id,
        mounts: after.mounts,
        dock: after.dock,
        ..before
    })
    &&& match find_leaf_spec(before.dock@, LeafKind::Tool) {
        Some(pos) => split is None && after.dock@ == mount_placed(
            before.dock@,
            pos,
            DockTab::Outer(Tab::PluginMount(id)),
        ),
        None => after.dock@ == before.dock@ && (split matches Some(s) && asks_root_split(
            s,
            crate::commands::DockDir::Right,
            TOOL_PANE_KEEP,
            DockTab::Outer(Tab::PluginMount(id)),
        )),
    }
}

/// Puts a mount of an earlier run back into the tool pane, usable or not.
pub fn restore_mount(
    app: &mut HxyApp,
    plugin_name: String,
    token: String,
    title: String,
    status: MountStatus,
) -> (r: (MountId, Option<SplitRequest>))
    requires
        old(app).wf(),
        old(app).next_mount_id < u64::MAX,
    ensures
        final(app).wf(),
        mount_restored(*old(app), plugin_name, token, title, status, r.0, r.1, *final(app)),
{
    let id = add_mount(app, plugin_name, token, title, status);
    match place_mount(&mut app.dock, id) {
        Placement::Placed(_) => (id, None),
        Placement::NeedsSplit(split) => (id, Some(split)),
    }
}

/// A file on disk that is open already is not opened again right away: the user is
/// asked, with the first tab that shows it. One that is not can be opened.
pub proof fn law_open_file_is_not_opened_twice(
    before: HxyApp,
    display_name: String,
    path: Seq<char>,
    r: bool,
    after: HxyApp,
    i: int,
)
    requires
        open_requested(before, display_name, path, r, after),
    ensures
        0 <= i < before.files@.len() && before.files@[i].source is Some
            && before.files@[i].source->0@ == SourceView::Filesystem(path) ==> !r && (
        after.pending_duplicate matches Some(p) && p.path@ == path && p.display_name@
            == display_name@),
        r ==> after == before,
        !r ==> (after.pending_duplicate matches Some(p) && exists|k: int|
            0 <= k < before.files@.len() && (#[trigger] before.files@[k]).id == p.existing
                && before.files@[k].source is Some && before.files@[k].source->0@
                == SourceView::Filesystem(path)),
        !r ==> after.files == before.files && after.dock == before.dock,
        (forall|k: int|
            0 <= k < before.files@.len() ==> !((#[trigger] before.files@[k]).source is Some
                && before.files@[k].source->0@ == SourceView::Filesystem(path))) ==> r,
{
    crate::session::law_file_of_source_is_found(before.files@, SourceView::Filesystem(path));
}

/// A file that was mounted is shown by a new workspace around it, as writable as the
/// mount is, in the very place of its tab; no file changes, and the next start opens it
/// so.
pub proof fn law_mounted_file_is_shown_by_workspace(
    before: HxyApp,
    file_id: FileId,
    writable: bool,
    r: (WorkspaceId, SplitRequest),
    after: HxyApp,
)
    requires
        file_mounted(before, file_id, writable, r, after),
        before.dock@.find(DockTab::Outer(Tab::File(file_id))) is Some,
    ensures
        ({
            let n = before.workspaces@.len() as int;
            &&& after.workspaces@.len() == n + 1
            &&& after.workspaces@[n].editor_id == file_id
            &&& after.workspaces@[n].writable == writable
            &&& after.workspaces@[n].id == (r.0)
            &&& after.files == before.files
            &&& after.dock@.tab_at(before.dock@.find(DockTab::Outer(Tab::File(file_id)))->0)
                == Some(DockTab::Outer(Tab::Workspace(r.0)))
            &&& focused_tab(after.dock@) == Some(DockTab::Outer(Tab::Workspace(r.0)))
        }),
{
    let v = before.dock@;
    let file = DockTab::Outer(Tab::File(file_id));
    let pos = v.find(file)->0;
    assert(v.first_at(file, pos));
    assert(after.workspaces@.last() == after.workspaces@[before.workspaces@.len() as int]);
}

/// A file is remembered as a workspace or not by the mark that was set, and no other
/// remembered tab changes.
pub proof fn law_mark_is_set_on_its_tab(
    tabs: Seq<OpenTabState>,
    source: SourceView,
    mark: bool,
    i: int,
)
    requires
        sources_distinct(tabs),
        0 <= i < tabs.len(),
    ensures
        workspace_marked(tabs, source, mark).len() == tabs.len(),
        tabs[i].source@ == source ==> workspace_marked(tabs, source, mark)[i].as_workspace == mark
            && workspace_marked(tabs, source, mark)[i].source == tabs[i].source,
        tabs[i].source@ != source ==> workspace_marked(tabs, source, mark)[i] == tabs[i],
{
    crate::source::law_remembered_tab_is_found(tabs, source);
}

/// An entry is read from the source of the workspace's file or of the mount that it was
/// picked in, is called after the last part of its path, and opens in that workspace, or
/// in the editing area for a plugin's mount.
pub proof fn law_picked_entry_opens_in_its_workspace(
    app: HxyApp,
    req: PendingVfsOpen,
    r: Option<EntryPlan>,
    w: int,
    i: int,
)
    requires
        app.wf(),
        vfs_open_planned(app, req, r),
        0 <= w < app.workspaces@.len(),
        0 <= i < app.files@.len(),
    ensures
        req matches PendingVfsOpen::Workspace { workspace_id, entry_path } ==> (workspace_id
            == app.workspaces@[w].id && app.files@[i].id == app.workspaces@[w].editor_id ==> (
        app.files@[i].source matches Some(s) ==> (r matches Some(plan) && plan.source@ == (
        SourceView::VfsEntry { parent: Box::new(s@), entry_path: entry_path@ }) && plan.name@
            == leaf_name(entry_path@) && plan.target == OpenTarget::Workspace(workspace_id)))),
        req matches PendingVfsOpen::PluginMount { mount_id: _, entry_path } ==> (r matches Some(plan)
            ==> plan.target is Toplevel && plan.name@ == leaf_name(entry_path@)),
{
    crate::session::lemma_workspace_at(app.workspaces@, app.workspaces@[w].id, w);
    crate::session::lemma_file_at(app.files@, app.files@[i].id, i);
}

/// An entry that is opened has exactly its bytes, joins its workspace and leaves the
/// outer dock alone; without that workspace it gets a tab in the dock. The files that
/// were open stay.
pub proof fn law_opened_entry_has_its_bytes(
    before: HxyApp,
    req: OpenRequest,
    workspace_id: WorkspaceId,
    id: FileId,
    after: HxyApp,
    k: int,
)
    requires
        before.wf(),
        entry_opened(before, req, workspace_id, id, after),
    ensures
        ({
            let n = before.files@.len() as int;
            &&& after.files@.len() == n + 1
            &&& after.files@[n].editor.bytes@ == req.bytes@ && after.files@[n].id == id
            &&& after.files@[n].display_name@ == req.display_name@
            &&& after.files@[n].source == req.source
            &&& 0 <= k < n ==> after.files@[k] == before.files@[k]
            &&& workspace_at(before.workspaces@, workspace_id) is Some ==> after.dock == before.dock
            &&& workspace_at(before.workspaces@, workspace_id) is None ==> after.workspaces
                == before.workspaces && after.dock@.tabs() == before.dock@.tabs().insert(
                DockTab::Outer(Tab::File(id)),
            )
        }),
{
    let n = before.files@.len() as int;
    assert(after.files@.last() == after.files@[n]);
    if 0 <= k < n {
        assert(after.files@.drop_last()[k] == after.files@[k]);
    }
    crate::dock::law_push_adds_tab(before.dock@, DockTab::Outer(Tab::File(id)));
}

/// A mount that a plugin made is listed under the plugin's name, its token and its
/// title, can be used, and is as writable as the plugin says; the mounts that were there
/// stay.
pub proof fn law_new_mount_is_listed(
    before: HxyApp,
    plugin_name: String,
    token: String,
    title: String,
    writable: bool,
    r: (MountId, Option<SplitRequest>),
    after: HxyApp,
    k: int,
)
    requires
        mount_installed(before, plugin_name, token, title, writable, r, after),
    ensures
        ({
            let n = before.mounts@.len() as int;
            let m = after.mounts@[n];
            &&& after.mounts@.len() == n + 1
            &&& m.id == (r.0) && (r.0).0 == before.next_mount_id
            &&& m.plugin_name@ == plugin_name@ && m.token@ == token@ && m.display_name@ == title@
            &&& m.status == (MountStatus::Ready { writable })
            &&& 0 <= k < n ==> after.mounts@[k] == before.mounts@[k]
            &&& after.files == before.files
            &&& tab_recorded(
                after.open_tabs@,
                SourceView::PluginMount {
                    plugin_name: plugin_name@,
                    token: token@,
                    title: title@,
                },
            )
        }),
{
    let n = before.mounts@.len() as int;
    assert(after.mounts@.last() == after.mounts@[n]);
    if 0 <= k < n {
        assert(after.mounts@.drop_last()[k] == after.mounts@[k]);
    }
    if after.open_tabs@.len() > before.open_tabs@.len() {
        assert(after.open_tabs@.last() == after.open_tabs@[after.open_tabs@.len() - 1]);
    }
}

/// Browsing shows the tree of the workspace in front where it is hidden, and mounts the
/// file in front only where something can mount it.
pub proof fn law_browsing_shows_hidden_tree(
    before: HxyApp,
    plan: MountPlan,
    after: HxyApp,
    w: int,
    i: int,
)
    requires
        before.wf(),
        mount_planned(before, plan, after),
    ensures
        0 <= w < before.workspaces@.len() && focused_tab(before.dock@) == Some(
            DockTab::Outer(Tab::Workspace(before.workspaces@[w].id)),
        ) ==> (plan matches MountPlan::ShowTree { workspace_id, split } && workspace_id
            == before.workspaces@[w].id && (split is Some <==> !before.workspaces@[w].dock@.holds(
            DockTab::Inner(crate::tabs::WorkspaceTab::VfsTree),
        ))),
        0 <= i < before.files@.len() && focused_tab(before.dock@) == Some(
            DockTab::Outer(Tab::File(before.files@[i].id)),
        ) ==> match before.files@[i].handler {
            Some(h) => plan == (MountPlan::Mount { file_id: before.files@[i].id, handler: h }),
            None => plan is Nothing,
        },
        after.files == before.files && after.dock == before.dock,
{
    if 0 <= w < before.workspaces@.len() {
        crate::session::lemma_workspace_at(before.workspaces@, before.workspaces@[w].id, w);
    }
    if 0 <= i < before.files@.len() {
        crate::session::lemma_file_at(before.files@, before.files@[i].id, i);
    }
}

/// What is opened becomes the last file with the bytes, the name and the source that
/// were asked for, under a number that no file had; every open file stays. A file of a
/// workspace is shown in that workspace.
pub proof fn law_opened_where_asked(
    before: HxyApp,
    req: OpenRequest,
    target: OpenTarget,
    r: FileId,
    after: HxyApp,
    i: int,
    w: int,
)
    requires
        before.wf(),
        opened_where_asked(before, req, target, r, after),
    ensures
        ({
            let n = before.files@.len() as int;
            let file = after.files@[n];
            &&& after.files@.len() == n + 1
            &&& 0 <= i < n ==> after.files@[i] == before.files@[i]
            &&& file.id == r && r.0 == before.next_file_id
            &&& file.editor.bytes@ == req.bytes@ && file.display_name@ == req.display_name@
                && file.source == req.source
        }),
        0 <= w < before.workspaces@.len() && target == OpenTarget::Workspace(
            before.workspaces@[w].id,
        ) ==> after.dock == before.dock && after.workspaces@[w].dock@ == entry_pushed(
            before.workspaces@[w].dock@,
            r,
        ),
{
    assert(after.files@.last() == after.files@[before.files@.len() as int]);
    if 0 <= i < before.files@.len() {
        assert(after.files@.drop_last()[i] == after.files@[i]);
    }
    if 0 <= w < before.workspaces@.len() {
        crate::session::lemma_workspace_at(before.workspaces@, before.workspaces@[w].id, w);
    }
}

/// An entry that was read is opened as planned: under the planned name, as the planned
/// source and with the bytes that were read.
pub proof fn law_entry_is_opened_as_planned(
    before: HxyApp,
    plan: EntryPlan,
    bytes: Vec<u8>,
    handler: Option<String>,
    r: FileId,
    after: HxyApp,
    i: int,
)
    requires
        vfs_opened(before, plan, bytes, handler, r, after),
    ensures
        ({
            let n = before.files@.len() as int;
            let file = after.files@[n];
            &&& after.files@.len() == n + 1
            &&& 0 <= i < n ==> after.files@[i] == before.files@[i]
            &&& file.id == r && r.0 == before.next_file_id
            &&& file.editor.bytes@ == bytes@ && file.display_name == plan.name && file.source
                == Some(plan.source) && file.handler == handler
        }),
{
    assert(after.files@.last() == after.files@[before.files@.len() as int]);
    if 0 <= i < before.files@.len() {
        assert(after.files@.drop_last()[i] == after.files@[i]);
    }
}

/// A file is mounted by what can mount it; without that nothing is planned.
pub proof fn law_file_is_mounted_by_its_handler(app: HxyApp, plan: MountPlan, i: int)
    requires
        app.wf(),
        0 <= i < app.files@.len(),
        file_mount_planned(app, app.files@[i].id, plan),
    ensures
        app.files@[i].handler is None ==> plan is Nothing,
        app.files@[i].handler matches Some(h) ==> (plan matches MountPlan::Mount {
            file_id,
            handler,
        } && file_id == app.files@[i].id && handler == h),
{
    crate::session::lemma_file_at(app.files@, app.files@[i].id, i);
}

} // verus!

//! Opening files: as tabs of the dock, as workspaces, and inside workspaces.

use vstd::prelude::*;
use vstd::string::*;
use crate::commands::SuggestedTemplate;
use crate::dock::{Dock, NodePos};
#[allow(unused_imports)]
use crate::dock::{DockView, LeafView, NodeView, TreeView};
use crate::dock_ops::SplitRequest;
#[allow(unused_imports)]
use crate::dock_ops::{asks_root_split, VFS_TREE_KEEP};
use crate::editor::{EditMode, HexEditor, Selection};
use crate::panes::{focus_content_leaf, remove_welcome_from_leaf};
#[allow(unused_imports)]
use crate::panes::{content_target, welcome_removed};
use crate::search::{SearchScope, SearchState};
use crate::session::{find_mount_for_source, HxyApp, LoadStatus, OpenFile, Workspace};
#[allow(unused_imports)]
use crate::session::{file_at, lemma_file_at, live_mount, MountRef};
use crate::settings::RecentFile;
use crate::source::{record_tab, OpenTabState, TabSource};
#[allow(unused_imports)]
use crate::source::{sources_distinct, tab_recorded, SourceView};
use crate::tabs::{is_tool_item, DockTab, FileId, Tab, WorkspaceId, WorkspaceTab};
#[allow(unused_imports)]
use crate::tabs::tool_item;
use crate::text::text_eq;
use crate::tool_pane::tree_split;
#[allow(unused_imports)]
use crate::tool_pane::tree_item;

verus! {

/// What is needed to open a file.
pub struct OpenRequest {
    pub display_name: String,
    pub source: Option<TabSource>,
    pub bytes: Vec<u8>,
    pub selection: Option<Selection>,
    pub scroll: Option<u64>,
    /// Name of what can mount it, found by its first bytes.
    pub handler: Option<String>,
    pub suggested_template: Option<SuggestedTemplate>,
    /// The directory that a file on disk lies in.
    pub parent_dir: Option<String>,
    /// Whether its bytes come later.
    pub loading: bool,
}

/// Whether a file that is opened must stay read-only: it is an entry of an
/// archive that is mounted and cannot be written.
pub open spec fn must_lock(app: HxyApp, source: Option<TabSource>) -> bool {
    match source {
        Some(TabSource::VfsEntry { parent, .. }) => live_mount(app, (*parent)@) matches Some(m)
            && !m.spec_writable(),
        _ => false,
    }
}

/// Whether a file that is opened must stay read-only. An entry whose archive
/// is not mounted right now is left alone.
pub fn readonly_for_source(app: &HxyApp, source: &Option<TabSource>) -> (r: bool)
    ensures
        r == must_lock(*app, *source),
{
    match source {
        Some(TabSource::VfsEntry { parent, .. }) => match find_mount_for_source(app, parent) {
            Some(m) => !m.writable(),
            None => false,
        },
        _ => false,
    }
}

/// The search bar of a file that has just been opened.
pub open spec fn fresh_search(s: SearchState) -> bool {
    &&& !s.open
    &&& !s.all_results
    &&& s.pattern is None
    &&& s.matches@.len() == 0
    &&& s.active_idx is None
    &&& s.scope is File
    &&& s.scroll_to is None
}

/// Whether a file is the one that a request asked for.
pub open spec fn file_made(req: OpenRequest, id: FileId, locked: bool, f: OpenFile) -> bool {
    &&& f.id == id
    &&& f.display_name == req.display_name
    &&& f.source == req.source
    &&& f.editor.wf()
    &&& f.editor.bytes@ == req.bytes@
    &&& f.editor.selection == req.selection
    &&& f.editor.edit_mode is Readonly
    &&& f.editor.undo_stack@.len() == 0
    &&& f.editor.redo_stack@.len() == 0
    &&& f.editor.restored@.len() == 0
    &&& !f.editor.low_nibble
    &&& f.scroll == (match req.scroll {
        Some(s) => s,
        None => 0,
    })
    &&& f.handler == req.handler
    &&& f.suggested_template == req.suggested_template
    &&& f.locked == locked
    &&& f.columns_override is None
    &&& f.virtual_base is None
    &&& !f.visualizer_open
    &&& !f.visualizer_dismissed
    &&& f.load == (if req.loading {
        LoadStatus::Loading
    } else {
        LoadStatus::Ready
    })
    &&& fresh_search(f.search)
}

/// The next id that no file has had, and the count of ids moved on.
pub fn fresh_file_id(app: &mut HxyApp) -> (r: FileId)
    requires
        old(app).wf(),
        old(app).next_file_id < u64::MAX,
    ensures
        final(app).wf(),
        r == FileId(old(app).next_file_id),
        *final(app) == (HxyApp {
            next_file_id: (old(app).next_file_id + 1) as u64,
            ..*old(app)
        }),
        file_at(old(app).files@, r) is None,
{
    let id = FileId::new(app.next_file_id);
    proof {
        crate::session::lemma_no_file_at(app.files@, id);
    }
    app.next_file_id = app.next_file_id + 1;
    id
}

/// Makes a file and adds it to the open ones, without a tab.
pub fn create_open_file(app: &mut HxyApp, req: OpenRequest) -> (r: FileId)
    requires
        old(app).wf(),
        old(app).next_file_id < u64::MAX,
    ensures
        final(app).wf(),
        r == FileId(old(app).next_file_id),
        *final(app) == (HxyApp {
            next_file_id: (old(app).next_file_id + 1) as u64,
            files: final(app).files,
            ..*old(app)
        }),
        final(app).files@.len() == old(app).files@.len() + 1,
        final(app).files@.drop_last() == old(app).files@,
        file_made(req, r, must_lock(*old(app), req.source), final(app).files@.last()),
{
    let locked = readonly_for_source(app, &req.source);
    let id = fresh_file_id(app);
    let mut editor = HexEditor::new(req.bytes);
    editor.selection = req.selection;
    editor.edit_mode = EditMode::Readonly;
    let file = OpenFile {
        id,
        display_name: req.display_name,
        source: req.source,
        editor,
        scroll: match req.scroll {
            Some(s) => s,
            None => 0,
        },
        handler: req.handler,
        suggested_template: req.suggested_template,
        locked,
        columns_override: None,
        virtual_base: None,
        visualizer_open: false,
        visualizer_dismissed: false,
        load: if req.loading {
            LoadStatus::Loading
        } else {
            LoadStatus::Ready
        },
        search: SearchState {
            open: false,
            all_results: false,
            pattern: None,
            matches: Vec::new(),
            active_idx: None,
            scope: SearchScope::File,
            scroll_to: None,
        },
    };
    app.files.push(file);
    assert(app.files@.drop_last() =~= old(app).files@);
    id
}

/// Whether a tab belongs to a panel rather than to the editing area.
pub open spec fn panel_item(t: DockTab) -> bool {
    tool_item(t) || t == DockTab::Outer(Tab::Console) || t == DockTab::Outer(Tab::SearchResults)
}

/// Whether the focused pane holds tabs, and nothing but panels.
pub open spec fn focused_all_panels(v: DockView) -> bool {
    match v.focused_leaf() {
        Some((s, n)) => v.tree(s as int).leaf(n as int) matches Some(leaf) && leaf.tabs.len() > 0
            && forall|i: int| 0 <= i < leaf.tabs.len() ==> panel_item(#[trigger] leaf.tabs[i]),
        None => false,
    }
}

/// Whether the focused pane holds tabs, and nothing but panels.
pub fn focused_leaf_is_all_tool(dock: &Dock) -> (r: bool)
    requires
        dock.wf(),
    ensures
        r == focused_all_panels(dock@),
{
    match dock.focused_leaf() {
        Some(pos) => match dock.leaf(pos) {
            Some(leaf) => {
                let tabs = leaf.0;
                if tabs.len() == 0 {
                    return false;
                }
                let mut i: usize = 0;
                while i < tabs.len()
                    invariant
                        i <= tabs@.len(),
                        forall|j: int| 0 <= j < i ==> panel_item(#[trigger] tabs@[j]),
                        dock@.focused_leaf() == Some((pos.surface as nat, pos.node as nat)),
                        dock@.leaf(pos) is Some,
                        (dock@.leaf(pos)->0).tabs == tabs@,
                    decreases tabs.len() - i,
                {
                    let panel = is_tool_item(&tabs[i]) || tabs[i] == DockTab::Outer(Tab::Console)
                        || tabs[i] == DockTab::Outer(Tab::SearchResults);
                    if !panel {
                        assert(!panel_item(tabs@[i as int]));
                        return false;
                    }
                    i = i + 1;
                }
                true
            },
            None => false,
        },
        None => false,
    }
}

/// The dock after a new tab was pushed and the placeholder page stepped aside
/// for it.
pub open spec fn tab_placed(v: DockView, tab: DockTab) -> DockView {
    let pushed = v.pushed(tab);
    match pushed.find(tab) {
        Some(pos) => welcome_removed(pushed, pos.node_pos()),
        None => pushed,
    }
}

/// Pushes a new tab to the focused pane and takes the placeholder page out of
/// it.
pub fn place_tab(dock: &mut Dock, tab: DockTab)
    requires
        old(dock).wf(),
    ensures
        final(dock).wf(),
        final(dock)@ == tab_placed(old(dock)@, tab),
{
    dock.push_to_focused_leaf(tab);
    if let Some(pos) = dock.find_tab(&tab) {
        remove_welcome_from_leaf(dock, pos.node_pos());
    }
}

/// The dock made ready for a file: away from a pane that holds nothing but
/// panels, to the editing area.
pub open spec fn ready_for_file(v: DockView, last: Option<NodePos>) -> DockView {
    if focused_all_panels(v) {
        match content_target(v, last) {
            Some(pos) => v.focused_on(pos),
            None => v,
        }
    } else {
        v
    }
}

/// The pane that is remembered as the editing area once the dock was made
/// ready for a file.
pub open spec fn leaf_for_file(v: DockView, last: Option<NodePos>) -> Option<NodePos> {
    if focused_all_panels(v) && content_target(v, last) is Some {
        content_target(v, last)
    } else {
        last
    }
}

/// A workspace that has just been made: the mounted file's tab alone.
pub open spec fn workspace_made(id: WorkspaceId, editor_id: FileId, writable: bool, w: Workspace)
    -> bool {
    &&& w.id == id
    &&& w.editor_id == editor_id
    &&& w.writable == writable
    &&& w.dock.wf()
    &&& w.dock@.surfaces == seq![
        Some(
            TreeView {
                nodes: seq![
                    NodeView::Leaf(
                        LeafView {
                            tabs: seq![DockTab::Inner(WorkspaceTab::Editor)],
                            active: 0,
                        },
                    ),
                ],
                focused: None,
            },
        ),
    ]
    &&& w.dock@.focus is None
}

/// Makes a workspace around a file that was mounted, without a tab. Its tree
/// panel is asked for.
pub fn spawn_workspace(app: &mut HxyApp, editor_id: FileId, writable: bool) -> (r: (
    WorkspaceId,
    SplitRequest,
))
    requires
        old(app).wf(),
        old(app).next_workspace_id < u64::MAX,
    ensures
        final(app).wf(),
        r.0 == WorkspaceId(old(app).next_workspace_id),
        *final(app) == (HxyApp {
            next_workspace_id: (old(app).next_workspace_id + 1) as u64,
            workspaces: final(app).workspaces,
            ..*old(app)
        }),
        final(app).workspaces@.len() == old(app).workspaces@.len() + 1,
        final(app).workspaces@.drop_last() == old(app).workspaces@,
        workspace_made(r.0, editor_id, writable, final(app).workspaces@.last()),
        asks_root_split(r.1, crate::commands::DockDir::Left, VFS_TREE_KEEP, tree_item()),
{
    let id = WorkspaceId(app.next_workspace_id);
    app.next_workspace_id = app.next_workspace_id + 1;
    let mut tabs: Vec<DockTab> = Vec::new();
    tabs.push(DockTab::Inner(WorkspaceTab::Editor));
    assert(tabs@ =~= seq![DockTab::Inner(WorkspaceTab::Editor)]);
    let dock = Dock::new(tabs);
    let split = tree_split();
    app.workspaces.push(Workspace { id, editor_id, dock, writable });
    assert(app.workspaces@.drop_last() =~= old(app).workspaces@);
    (id, split)
}

/// What came of opening a file.
pub struct Opened {
    pub id: FileId,
    /// The workspace that was made around it, and the split that its tree
    /// panel needs.
    pub workspace: Option<(WorkspaceId, SplitRequest)>,
}

/// Whether a file becomes a workspace: it can be mounted, and mounting it
/// went well.
pub open spec fn becomes_workspace(req: OpenRequest, mounted: Option<bool>) -> bool {
    req.handler is Some && mounted is Some
}

/// The record of an opened file for the next start.
pub open spec fn tab_state_of(req: OpenRequest, as_workspace: bool, t: OpenTabState) -> bool {
    &&& req.source == Some(t.source)
    &&& t.selection == req.selection
    &&& t.scroll == (match req.scroll {
        Some(s) => s,
        None => 0,
    })
    &&& t.as_workspace == as_workspace
    &&& !t.visualizer_open
}

/// The tabs to open again after a file was opened: one more unless its source
/// is among them, or is none.
pub open spec fn tabs_after_open(
    before: Seq<OpenTabState>,
    req: OpenRequest,
    as_workspace: bool,
    after: Seq<OpenTabState>,
) -> bool {
    match req.source {
        Some(source) => if tab_recorded(before, source@) {
            after == before
        } else {
            after.len() == before.len() + 1 && after.drop_last() == before && tab_state_of(
                req,
                as_workspace,
                after.last(),
            )
        },
        None => after == before,
    }
}

pub(crate) fn record_open(
    tabs: &mut Vec<OpenTabState>,
    source: &Option<TabSource>,
    selection: Option<Selection>,
    scroll: Option<u64>,
    as_workspace: bool,
)
    ensures
        sources_distinct(old(tabs)@) ==> sources_distinct(final(tabs)@),
        match *source {
            Some(s) => if tab_recorded(old(tabs)@, s@) {
                final(tabs)@ == old(tabs)@
            } else {
                &&& final(tabs)@.len() == old(tabs)@.len() + 1
                &&& final(tabs)@.drop_last() == old(tabs)@
                &&& final(tabs)@.last().source == s
                &&& final(tabs)@.last().selection == selection
                &&& final(tabs)@.last().scroll == (match scroll {
                    Some(n) => n,
                    None => 0,
                })
                &&& final(tabs)@.last().as_workspace == as_workspace
                &&& !final(tabs)@.last().visualizer_open
            },
            None => final(tabs)@ == old(tabs)@,
        },
{
    if let Some(s) = source {
        let entry = OpenTabState {
            source: s.clone(),
            selection,
            scroll: match scroll {
                Some(n) => n,
                None => 0,
            },
            as_workspace,
            visualizer_open: false,
        };
        record_tab(tabs, entry);
        proof {
            if !tab_recorded(old(tabs)@, s@) {
                assert(tabs@.drop_last() =~= old(tabs)@);
            }
        }
    }
}

/// The recent files without those from a path.
pub open spec fn recents_without(list: Seq<RecentFile>, path: Seq<char>) -> Seq<RecentFile>
    decreases list.len(),
{
    if list.len() == 0 {
        seq![]
    } else if list.last().path@ == path {
        recents_without(list.drop_last(), path)
    } else {
        recents_without(list.drop_last(), path).push(list.last())
    }
}

/// The recent files after one was opened: it stands first, and once.
pub open spec fn recents_after(list: Seq<RecentFile>, file: RecentFile) -> Seq<RecentFile> {
    seq![file] + recents_without(list, file.path@)
}

/// Puts a file at the head of the recent ones.
pub fn record_recent(list: &mut Vec<RecentFile>, file: RecentFile)
    ensures
        final(list)@ == recents_after(old(list)@, file),
{
    let mut kept: Vec<RecentFile> = Vec::new();
    let mut rest: Vec<RecentFile> = Vec::new();
    std::mem::swap(list, &mut rest);
    let ghost all = rest@;
    let ghost mut done: int = 0;
    assert(all.take(0) =~= seq![]);
    while rest.len() > 0
        invariant
            0 <= done <= all.len(),
            rest@ == all.skip(done),
            kept@ == recents_without(all.take(done), file.path@),
        decreases rest.len(),
    {
        let next = rest.remove(0);
        assert(next == all[done]);
        assert(all.take(done + 1).drop_last() =~= all.take(done));
        if !text_eq(next.path.as_str(), file.path.as_str()) {
            kept.push(next);
        }
        proof {
            done = done + 1;
        }
        assert(rest@ =~= all.skip(done));
    }
    assert(all.take(all.len() as int) =~= all);
    let ghost others = kept@;
    kept.insert(0, file);
    assert(kept@ =~= seq![file] + others);
    std::mem::swap(list, &mut kept);
}

/// The recent files hold each path once after one was opened, if they did
/// before.
pub proof fn law_recents_distinct(list: Seq<RecentFile>, file: RecentFile)
    requires
        forall|i: int, j: int|
            0 <= i < j < list.len() ==> (#[trigger] list[i]).path@ != (#[trigger] list[j]).path@,
    ensures
        forall|i: int, j: int|
            0 <= i < j < recents_after(list, file).len() ==> (#[trigger] recents_after(
                list,
                file,
            )[i]).path@ != (#[trigger] recents_after(list, file)[j]).path@,
{
    lemma_recents_without(list, file.path@);
}

proof fn lemma_recents_without(list: Seq<RecentFile>, path: Seq<char>)
    requires
        forall|i: int, j: int|
            0 <= i < j < list.len() ==> (#[trigger] list[i]).path@ != (#[trigger] list[j]).path@,
    ensures
        forall|i: int|
            0 <= i < recents_without(list, path).len() ==> (#[trigger] recents_without(
                list,
                path,
            )[i]).path@ != path && list.contains(recents_without(list, path)[i]),
        forall|i: int, j: int|
            0 <= i < j < recents_without(list, path).len() ==> (#[trigger] recents_without(
                list,
                path,
            )[i]).path@ != (#[trigger] recents_without(list, path)[j]).path@,
    decreases list.len(),
{
    if list.len() > 0 {
        let shorter = list.drop_last();
        lemma_recents_without(shorter, path);
        let rest = recents_without(shorter, path);
        let result = recents_without(list, path);
        assert forall|i: int| 0 <= i < result.len() implies list.contains(#[trigger] result[i]) by {
            if i < rest.len() {
                assert(shorter.contains(rest[i]));
                let k = choose|k: int| 0 <= k < shorter.len() && shorter[k] == rest[i];
                assert(list[k] == rest[i]);
            } else {
                assert(list[list.len() - 1] == result[i]);
            }
        }
        assert forall|i: int, j: int| 0 <= i < j < result.len() implies (
        #[trigger] result[i]).path@ != (#[trigger] result[j]).path@ by {
            if j == rest.len() {
                assert(shorter.contains(rest[i]));
                let k = choose|k: int| 0 <= k < shorter.len() && shorter[k] == rest[i];
                assert(list[k].path@ != list[list.len() - 1].path@);
            } else {
                assert(rest[i].path@ != rest[j].path@);
            }
        }
    }
}

/// Whether the recent files are those after a file was opened: a file on disk
/// stands first, and any other source changes nothing.
pub open spec fn recents_after_open(
    before: Seq<RecentFile>,
    req: OpenRequest,
    after: Seq<RecentFile>,
) -> bool {
    match req.source {
        Some(TabSource::Filesystem(path)) => {
            &&& after.len() > 0
            &&& after == recents_after(before, after[0])
            &&& after[0].path == path
            &&& after[0].name == req.display_name
            &&& after[0].parent == req.parent_dir
        },
        _ => after == before,
    }
}

/// The dock and workspaces after a new file got its tab: that of a workspace
/// around it where it was mounted, else its own in the editing area.
pub open spec fn file_placed(
    before: HxyApp,
    id: FileId,
    mounted: Option<bool>,
    r: Option<(WorkspaceId, SplitRequest)>,
    after: HxyApp,
) -> bool {
    &&& after == (HxyApp {
        next_workspace_id: after.next_workspace_id,
        workspaces: after.workspaces,
        dock: after.dock,
        last_content_leaf: after.last_content_leaf,
        ..before
    })
    &&& match (mounted, r) {
        (Some(writable), Some((wid, split))) => {
            &&& wid == WorkspaceId(before.next_workspace_id)
            &&& after.next_workspace_id == before.next_workspace_id + 1
            &&& after.workspaces@.len() == before.workspaces@.len() + 1
            &&& after.workspaces@.drop_last() == before.workspaces@
            &&& workspace_made(wid, id, writable, after.workspaces@.last())
            &&& asks_root_split(
                split,
                crate::commands::DockDir::Left,
                VFS_TREE_KEEP,
                tree_item(),
            )
            &&& after.dock@ == tab_placed(before.dock@, DockTab::Outer(Tab::Workspace(wid)))
            &&& after.last_content_leaf == before.last_content_leaf
        },
        (None, None) => {
            &&& after.next_workspace_id == before.next_workspace_id
            &&& after.workspaces == before.workspaces
            &&& after.dock@ == tab_placed(
                ready_for_file(before.dock@, before.last_content_leaf),
                DockTab::Outer(Tab::File(id)),
            )
            &&& after.last_content_leaf == leaf_for_file(before.dock@, before.last_content_leaf)
        },
        _ => false,
    }
}

/// Gives a new file its tab. `mounted` is nothing where it is not to be a
/// workspace, and else whether entries can be written back.
pub fn place_file(app: &mut HxyApp, id: FileId, mounted: Option<bool>) -> (r: Option<
    (WorkspaceId, SplitRequest),
>)
    requires
        old(app).wf(),
        old(app).next_workspace_id < u64::MAX,
    ensures
        final(app).wf(),
        file_placed(*old(app), id, mounted, r, *final(app)),
{
    match mounted {
        Some(writable) => {
            let (wid, split) = spawn_workspace(app, id, writable);
            place_tab(&mut app.dock, DockTab::Outer(Tab::Workspace(wid)));
            Some((wid, split))
        },
        None => {
            if focused_leaf_is_all_tool(&app.dock) {
                focus_content_leaf(&mut app.dock, &mut app.last_content_leaf);
            }
            place_tab(&mut app.dock, DockTab::Outer(Tab::File(id)));
            None
        },
    }
}

fn note_recent(
    app: &mut HxyApp,
    source: &Option<TabSource>,
    name: String,
    parent: Option<String>,
)
    requires
        old(app).wf(),
    ensures
        final(app).wf(),
        *final(app) == (HxyApp { settings: final(app).settings, ..*old(app) }),
        final(app).settings == (crate::settings::AppSettings {
            recent_files: final(app).settings.recent_files,
            ..old(app).settings
        }),
        match *source {
            Some(TabSource::Filesystem(path)) => {
                let after = final(app).settings.recent_files@;
                &&& after.len() > 0
                &&& after == recents_after(old(app).settings.recent_files@, after[0])
                &&& after[0].path == path
                &&& after[0].name == name
                &&& after[0].parent == parent
            },
            _ => final(app).settings.recent_files == old(app).settings.recent_files,
        },
{
    if let Some(TabSource::Filesystem(path)) = source {
        let recent = RecentFile { path: path.clone(), name, parent };
        record_recent(&mut app.settings.recent_files, recent);
        assert(app.settings.recent_files@[0] == recent);
    }
}

/// Whether one editor is another after a file was opened in it: the file is
/// the last, it has its tab, and its source is recorded.
pub open spec fn opened_to(
    before: HxyApp,
    req: OpenRequest,
    mounted: Option<bool>,
    r: Opened,
    after: HxyApp,
) -> bool {
    &&& r.id == FileId(before.next_file_id)
    &&& after.next_file_id == before.next_file_id + 1
    &&& after.files@.len() == before.files@.len() + 1
    &&& after.files@.drop_last() == before.files@
    &&& file_made(req, r.id, must_lock(before, req.source), after.files@.last())
    &&& tabs_after_open(before.open_tabs@, req, r.workspace is Some, after.open_tabs@)
    &&& recents_after_open(
        before.settings.recent_files@,
        req,
        after.settings.recent_files@,
    )
    &&& after.settings == (crate::settings::AppSettings {
        recent_files: after.settings.recent_files,
        ..before.settings
    })
    &&& file_placed(
        HxyApp {
            next_file_id: after.next_file_id,
            files: after.files,
            open_tabs: after.open_tabs,
            settings: after.settings,
            ..before
        },
        r.id,
        mounted,
        r.workspace,
        after,
    )
}

/// Opening a file remembers its source once: what was remembered stays as it was,
/// no source is remembered twice, and the file has a number that no file had.
pub proof fn law_opened_once(
    before: HxyApp,
    req: OpenRequest,
    mounted: Option<bool>,
    r: Opened,
    after: HxyApp,
)
    requires
        before.wf(),
        opened_to(before, req, mounted, r, after),
        req.source is Some,
    ensures
        sources_distinct(after.open_tabs@),
        tab_recorded(after.open_tabs@, req.source->0@),
        before.open_tabs@.len() <= after.open_tabs@.len(),
        after.open_tabs@.take(before.open_tabs@.len() as int) == before.open_tabs@,
        tab_recorded(before.open_tabs@, req.source->0@) ==> after.open_tabs@ == before.open_tabs@,
        forall|i: int| 0 <= i < before.files@.len() ==> (#[trigger] before.files@[i]).id != r.id,
        file_at(after.files@, r.id) == Some(before.files@.len() as int),
        after.files@.last().source == req.source,
{
    let source = req.source->0;
    let old_tabs = before.open_tabs@;
    let tabs = after.open_tabs@;
    if tab_recorded(old_tabs, source@) {
        assert(tabs.take(old_tabs.len() as int) =~= old_tabs);
    } else {
        assert(tabs[tabs.len() - 1].source@ == source@);
        assert forall|i: int, j: int| 0 <= i < j < tabs.len() implies (#[trigger] tabs[i]).source@
            != (#[trigger] tabs[j]).source@ by {
            assert(tabs[i] == tabs.drop_last()[i]);
            if j < old_tabs.len() {
                assert(tabs[j] == tabs.drop_last()[j]);
            } else {
                assert(old_tabs[i].source@ != source@);
            }
        }
        assert(tabs.take(old_tabs.len() as int) =~= old_tabs);
    }
    let files = after.files@;
    assert forall|j: int| 0 <= j < files.len() - 1 implies (#[trigger] files[j]).id != r.id by {
        assert(files[j] == files.drop_last()[j]);
        assert(files.drop_last()[j].id.0 < before.next_file_id);
    }
    lemma_file_at(files, r.id, files.len() - 1);
}

impl HxyApp {
    /// Opens a file as a tab of the dock. With `as_workspace` it becomes a
    /// workspace where it can be mounted; `mounted` tells whether mounting it went
    /// well, and if so whether entries can be written back.
    #[verifier::rlimit(60)]
    #[verifier::spinoff_prover]
    pub fn open(&mut self, req: OpenRequest, as_workspace: bool, mounted: Option<bool>) -> (r:
        Opened)
        requires
            old(self).wf(),
            old(self).next_file_id < u64::MAX,
            old(self).next_workspace_id < u64::MAX,
        ensures
            final(self).wf(),
            opened_to(
                *old(self),
                req,
                if as_workspace && becomes_workspace(req, mounted) {
                    mounted
                } else {
                    None
                },
                r,
                *final(self),
            ),
    {
        let source = match &req.source {
            Some(s) => Some(s.clone()),
            None => None,
        };
        let display_name = req.display_name.clone();
        let parent_dir = match &req.parent_dir {
            Some(s) => Some(s.clone()),
            None => None,
        };
        let selection = req.selection;
        let scroll = req.scroll;
        let wrap: Option<bool> = if as_workspace && req.handler.is_some() {
            mounted
        } else {
            None
        };
        let id = create_open_file(self, req);
        let workspace = place_file(self, id, wrap);
        let pushed = workspace.is_some();
        note_recent(self, &source, display_name, parent_dir);
        record_open(&mut self.open_tabs, &source, selection, scroll, pushed);
        Opened { id, workspace }
    }
}

impl HxyApp {
    /// Opens bytes that come from no file.
    pub fn open_in_memory(&mut self, display_name: String, bytes: Vec<u8>) -> (r: FileId)
        requires
            old(self).wf(),
            old(self).next_file_id < u64::MAX,
            old(self).next_workspace_id < u64::MAX,
        ensures
            final(self).wf(),
            exists|req: OpenRequest, done: Opened|
                req.display_name == display_name && req.source is None && req.bytes == bytes
                    && req.selection is None && req.scroll is None && req.handler is None
                    && req.suggested_template is None && !req.loading && done.id == r && #[trigger] opened_to(
                    *old(self),
                    req,
                    None,
                    done,
                    *final(self),
                ),
    {
        let req = OpenRequest {
            display_name,
            source: None,
            bytes,
            selection: None,
            scroll: None,
            handler: None,
            suggested_template: None,
            parent_dir: None,
            loading: false,
        };
        let ghost asked = req;
        let done = self.open(req, false, None);
        assert(opened_to(*old(self), asked, None, done, *self));
        done.id
    }
}

/// What is known of a file on disk beside its bytes.
pub struct FileFacts {
    /// Name of what can mount it as an archive.
    pub handler: Option<String>,
    pub suggested_template: Option<crate::commands::SuggestedTemplate>,
    /// The directory that it lies in.
    pub parent_dir: Option<String>,
}

/// Whether a request asks for a file on disk.
pub open spec fn asks_file(
    req: OpenRequest,
    display_name: Seq<char>,
    path: Seq<char>,
    bytes: Seq<u8>,
    selection: Option<Selection>,
    scroll: Option<u64>,
    facts: FileFacts,
) -> bool {
    &&& req.display_name@ == display_name
    &&& (req.source matches Some(s) && s@ == SourceView::Filesystem(path))
    &&& req.bytes@ == bytes
    &&& req.selection == selection
    &&& req.scroll == scroll
    &&& req.handler == facts.handler
    &&& req.suggested_template == facts.suggested_template
    &&& req.parent_dir == facts.parent_dir
    &&& !req.loading
}

/// Whether one editor is another in which a file on disk was opened.
pub open spec fn file_opened(
    before: HxyApp,
    display_name: Seq<char>,
    path: Seq<char>,
    bytes: Seq<u8>,
    selection: Option<Selection>,
    scroll: Option<u64>,
    facts: FileFacts,
    id: FileId,
    after: HxyApp,
) -> bool {
    exists|req: OpenRequest, done: Opened|
        asks_file(req, display_name, path, bytes, selection, scroll, facts) && done.id == id
            && #[trigger] opened_to(before, req, None, done, after)
}

impl HxyApp {
    /// Opens a file on disk whose bytes were read.
    pub fn open_filesystem(
        &mut self,
        display_name: String,
        path: String,
        bytes: Vec<u8>,
        selection: Option<Selection>,
        scroll: Option<u64>,
        facts: FileFacts,
    ) -> (r: FileId)
        requires
            old(self).wf(),
            old(self).next_file_id < u64::MAX,
            old(self).next_workspace_id < u64::MAX,
        ensures
            final(self).wf(),
            file_opened(
                *old(self),
                display_name@,
                path@,
                bytes@,
                selection,
                scroll,
                facts,
                r,
                *final(self),
            ),
    {
        let req = OpenRequest {
            display_name,
            source: Some(TabSource::Filesystem(path)),
            bytes,
            selection,
            scroll,
            handler: facts.handler,
            suggested_template: facts.suggested_template,
            parent_dir: facts.parent_dir,
            loading: false,
        };
        let ghost asked = req;
        let done = self.open(req, false, None);
        assert(asks_file(asked, display_name@, path@, bytes@, selection, scroll, facts));
        assert(opened_to(*old(self), asked, None, done, *self));
        done.id
    }
}

/// A file that is opened has exactly the bytes, name, selection and source that were
/// asked for; it is read-only, without edits to undo, and waits for its bytes only where
/// they come later. The files that were open stay as they were.
pub proof fn law_opened_file_is_the_one_asked_for(
    before: HxyApp,
    req: OpenRequest,
    mounted: Option<bool>,
    r: Opened,
    after: HxyApp,
    i: int,
)
    requires
        opened_to(before, req, mounted, r, after),
    ensures
        ({
            let n = before.files@.len() as int;
            let file = after.files@[n];
            &&& after.files@.len() == n + 1
            &&& 0 <= i < n ==> after.files@[i] == before.files@[i]
            &&& file.id == r.id && r.id.0 == before.next_file_id
            &&& file.editor.bytes@ == req.bytes@
            &&& file.display_name@ == req.display_name@
            &&& file.source == req.source
            &&& file.editor.selection == req.selection
            &&& file.editor.edit_mode is Readonly
            &&& file.editor.undo_stack@.len() == 0 && file.editor.redo_stack@.len() == 0
            &&& req.loading <==> file.load is Loading
            &&& !req.loading ==> file.load is Ready
            &&& !file.search.open
            &&& file.columns_override is None && file.virtual_base is None
            &&& req.scroll matches Some(s) ==> file.scroll == s
            &&& req.scroll is None ==> file.scroll == 0
        }),
{
    let n = before.files@.len() as int;
    assert(after.files@.last() == after.files@[n]);
    if 0 <= i < n {
        assert(after.files@.drop_last()[i] == before.files@[i]);
    }
}

/// Only an entry of an archive that is mounted and cannot be written must stay
/// read-only.
pub proof fn law_entry_of_read_only_archive_is_locked(
    app: HxyApp,
    source: Option<TabSource>,
    parent: TabSource,
    entry_path: String,
)
    ensures
        must_lock(app, source) ==> source is Some && source->0 is VfsEntry,
        source == Some(TabSource::VfsEntry { parent: Box::new(parent), entry_path }) ==> match live_mount(
            app,
            parent@,
        ) {
            Some(MountRef::Workspace { workspace_id: _, writable }) => must_lock(app, source)
                == !writable,
            Some(MountRef::Plugin { mount_id: _, writable }) => must_lock(app, source) == !writable,
            None => !must_lock(app, source),
        },
{
}

/// A file on disk that is opened becomes the first of the recent files, under its own
/// path, name and directory; the others stay in order, and its path does not come twice.
/// Any other source changes no recent file.
pub proof fn law_opened_file_is_most_recent(
    before: HxyApp,
    req: OpenRequest,
    mounted: Option<bool>,
    r: Opened,
    after: HxyApp,
    k: int,
)
    requires
        opened_to(before, req, mounted, r, after),
    ensures
        ({
            let old_list = before.settings.recent_files@;
            let new_list = after.settings.recent_files@;
            &&& req.source matches Some(TabSource::Filesystem(path)) ==> {
                &&& new_list.len() > 0
                &&& new_list[0].path@ == path@ && new_list[0].name@ == req.display_name@
                    && new_list[0].parent == req.parent_dir
                &&& 0 < k < new_list.len() ==> new_list[k].path@ != path@ && old_list.contains(
                    new_list[k],
                )
                &&& 0 <= k < old_list.len() && old_list[k].path@ != path@ ==> new_list.contains(
                    old_list[k],
                )
            }
            &&& !(req.source matches Some(TabSource::Filesystem(_))) ==> new_list == old_list
        }),
{
    let old_list = before.settings.recent_files@;
    let new_list = after.settings.recent_files@;
    match req.source {
        Some(TabSource::Filesystem(path)) => {
            let rest = recents_without(old_list, path@);
            lemma_recents_kept(old_list, path@);
            assert(new_list == seq![new_list[0]] + rest);
            if 0 < k < new_list.len() {
                assert(new_list[k] == rest[k - 1]);
            }
            if 0 <= k < old_list.len() && old_list[k].path@ != path@ {
                assert(rest.contains(old_list[k]));
                let j = choose|j: int| 0 <= j < rest.len() && rest[j] == old_list[k];
                assert(new_list[j + 1] == old_list[k]);
            }
        },
        _ => {},
    }
}

proof fn lemma_recents_kept(list: Seq<RecentFile>, path: Seq<char>)
    ensures
        forall|i: int|
            0 <= i < recents_without(list, path).len() ==> (#[trigger] recents_without(
                list,
                path,
            )[i]).path@ != path && list.contains(recents_without(list, path)[i]),
        forall|i: int|
            0 <= i < list.len() && (#[trigger] list[i]).path@ != path ==> recents_without(
                list,
                path,
            ).contains(list[i]),
    decreases list.len(),
{
    if list.len() > 0 {
        let init = list.drop_last();
        let fewer = recents_without(init, path);
        let all = recents_without(list, path);
        lemma_recents_kept(init, path);
        assert forall|i: int| 0 <= i < all.len() implies (#[trigger] all[i]).path@ != path
            && list.contains(all[i]) by {
            if i < fewer.len() {
                assert(all[i] == fewer[i]);
                let j = choose|j: int| 0 <= j < init.len() && init[j] == fewer[i];
                assert(list[j] == fewer[i]);
            } else {
                assert(all[i] == list[list.len() - 1]);
            }
        }
        assert forall|i: int| 0 <= i < list.len() && (#[trigger] list[i]).path@ != path implies all.contains(
            list[i],
        ) by {
            if i < init.len() {
                assert(init[i] == list[i]);
                let j = choose|j: int| 0 <= j < fewer.len() && fewer[j] == list[i];
                assert(all[j] == list[i]);
            } else {
                assert(all[fewer.len() as int] == list[i]);
            }
        }
    }
}

/// The recent files keep their order when one is taken out.
pub proof fn law_recents_keep_order(list: Seq<RecentFile>, file: RecentFile, path: Seq<char>)
    ensures
        recents_without(seq![], path) == Seq::<RecentFile>::empty(),
        file.path@ != path ==> recents_without(list.push(file), path) == recents_without(
            list,
            path,
        ).push(file),
        file.path@ == path ==> recents_without(list.push(file), path) == recents_without(
            list,
            path,
        ),
{
    assert(list.push(file).drop_last() =~= list);
}

/// A file that is mounted becomes a workspace of its own around it, as writable as the
/// mount is; any other changes no workspace. The file is remembered for the next start
/// as what it became.
pub proof fn law_mounted_file_becomes_workspace(
    before: HxyApp,
    req: OpenRequest,
    mounted: Option<bool>,
    r: Opened,
    after: HxyApp,
)
    requires
        opened_to(before, req, mounted, r, after),
    ensures
        r.workspace is Some <==> mounted is Some,
        mounted is None ==> after.workspaces == before.workspaces,
        mounted matches Some(writable) ==> {
            let w = after.workspaces@[before.workspaces@.len() as int];
            &&& after.workspaces@.len() == before.workspaces@.len() + 1
            &&& w.editor_id == r.id && w.writable == writable && w.id.0 == before.next_workspace_id
            &&& (r.workspace->0).0 == w.id
        },
        req.source matches Some(s) ==> (!tab_recorded(before.open_tabs@, s@) ==> {
            let t = after.open_tabs@[before.open_tabs@.len() as int];
            &&& after.open_tabs@.len() == before.open_tabs@.len() + 1
            &&& t.source == s && t.as_workspace == (mounted is Some)
            &&& t.selection == req.selection
        }),
        req.source is None ==> after.open_tabs@ == before.open_tabs@,
{
    if mounted is Some {
        assert(after.workspaces@.last() == after.workspaces@[before.workspaces@.len() as int]);
    }
    if req.source is Some {
        if !tab_recorded(before.open_tabs@, req.source->0@) {
            assert(after.open_tabs@.last() == after.open_tabs@[before.open_tabs@.len() as int]);
        }
    }
}

/// A file is opened in the focused pane, unless that pane holds nothing but panels:
/// then in the pane with the editing area.
pub proof fn law_panels_get_no_files(v: DockView, last: Option<NodePos>, at: NodePos)
    ensures
        v.focused_leaf() is None ==> ready_for_file(v, last) == v,
        v.focused_leaf() == Some((at.surface as nat, at.node as nat)) && v.has_tree(
            at.surface as int,
        ) ==> (v.leaf(at) matches Some(leaf) ==> {
            &&& (exists|i: int|
                0 <= i < leaf.tabs.len() && crate::tabs::content_item(#[trigger] leaf.tabs[i]))
                ==> ready_for_file(v, last) == v
            &&& (leaf.tabs.len() > 0 && forall|i: int|
                0 <= i < leaf.tabs.len() ==> (tool_item(#[trigger] leaf.tabs[i]) || leaf.tabs[i]
                    == DockTab::Outer(Tab::Console) || leaf.tabs[i] == DockTab::Outer(
                    Tab::SearchResults,
                ))) ==> ready_for_file(v, last) == match content_target(v, last) {
                Some(pos) => v.focused_on(pos),
                None => v,
            }
        }),
{
    if v.focused_leaf() == Some((at.surface as nat, at.node as nat)) && v.leaf(at) is Some {
        let leaf = v.leaf(at)->0;
        if exists|i: int|
            0 <= i < leaf.tabs.len() && crate::tabs::content_item(#[trigger] leaf.tabs[i]) {
            let i = choose|i: int|
                0 <= i < leaf.tabs.len() && crate::tabs::content_item(#[trigger] leaf.tabs[i]);
            assert(!panel_item(leaf.tabs[i]));
        }
    }
}

/// A file that is noted as recent comes first, the others follow in the order that they
/// had, and its path does not come twice.
pub proof fn law_noted_file_comes_first(list: Seq<RecentFile>, file: RecentFile, k: int)
    ensures
        recents_after(list, file).len() > 0,
        recents_after(list, file)[0] == file,
        0 < k < recents_after(list, file).len() ==> recents_after(list, file)[k].path@ != file.path@
            && list.contains(recents_after(list, file)[k]),
        recents_after(list, file).skip(1) == recents_without(list, file.path@),
{
    lemma_recents_kept(list, file.path@);
    let rest = recents_without(list, file.path@);
    assert(recents_after(list, file).skip(1) =~= rest);
    if 0 < k < recents_after(list, file).len() {
        assert(recents_after(list, file)[k] == rest[k - 1]);
    }
}

} // verus!

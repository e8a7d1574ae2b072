//! Closing tabs, files and workspaces.

use vstd::prelude::*;
use vstd::string::*;
#[allow(unused_imports)]
use crate::dock::DockView;
use crate::dock_ops::{close_tab, take_place};
#[allow(unused_imports)]
use crate::dock_ops::{closed, in_place_of};
use crate::mounting::mark_file;
#[allow(unused_imports)]
use crate::mounting::{file_marked, mount_source};
#[allow(unused_imports)]
use crate::moves::tab_list;
use crate::panes::active_focused;
#[allow(unused_imports)]
use crate::panes::focused_tab;
use crate::session::{
    find_file,
    find_mount,
    find_workspace,
    find_workspace_of_file,
    HxyApp,
    OpenFile,
    PendingCloseTab,
    Workspace,
};
#[allow(unused_imports)]
use crate::session::{
    dock_changed, file_at, lemma_no_file_at, mount_at, workspace_at,
    workspace_of_file,
};
use crate::source::{find_tab_state, forget_source, OpenTabState, TabSource};
#[allow(unused_imports)]
use crate::source::{law_forgotten, tab_index, tab_recorded, tabs_without, SourceView};
use crate::tabs::{DockTab, FileId, MountId, Tab, WorkspaceId, WorkspaceTab};
use crate::tool_pane::workspace_entries;
#[allow(unused_imports)]
use crate::tool_pane::entries_of;

verus! {

/// Files without the one with an id.
pub open spec fn files_without(files: Seq<OpenFile>, id: FileId) -> Seq<OpenFile> {
    match file_at(files, id) {
        Some(i) => files.remove(i),
        None => files,
    }
}

/// The remembered tabs once a file is gone: its source is forgotten.
pub open spec fn tabs_after_drop(
    files: Seq<OpenFile>,
    tabs: Seq<OpenTabState>,
    id: FileId,
) -> Seq<OpenTabState> {
    match file_at(files, id) {
        Some(i) => match files[i].source {
            Some(s) => tabs_without(tabs, s@),
            None => tabs,
        },
        None => tabs,
    }
}

/// What is left of files and remembered tabs once some files are gone.
pub open spec fn dropped(
    files: Seq<OpenFile>,
    tabs: Seq<OpenTabState>,
    ids: Seq<FileId>,
) -> (Seq<OpenFile>, Seq<OpenTabState>)
    decreases ids.len(),
{
    if ids.len() == 0 {
        (files, tabs)
    } else {
        let (f, t) = dropped(files, tabs, ids.drop_last());
        (files_without(f, ids.last()), tabs_after_drop(f, t, ids.last()))
    }
}

/// Drops a file and forgets its source.
fn drop_file(app: &mut HxyApp, id: FileId)
    requires
        old(app).wf(),
    ensures
        final(app).wf(),
        *final(app) == (HxyApp {
            files: final(app).files,
            open_tabs: final(app).open_tabs,
            ..*old(app)
        }),
        final(app).files@ == files_without(old(app).files@, id),
        final(app).open_tabs@ == tabs_after_drop(old(app).files@, old(app).open_tabs@, id),
{
    if let Some(i) = find_file(&app.files, id) {
        let removed = app.files.remove(i);
        if let Some(source) = &removed.source {
            proof {
                law_forgotten(app.open_tabs@, source@, source@);
            }
            forget_source(&mut app.open_tabs, source);
        }
    }
}

/// The file with an id is the only one with it, so once it is dropped there is
/// none, and all others are there.
pub proof fn law_dropped_file_is_gone(app: HxyApp, id: FileId, other: FileId)
    requires
        app.wf(),
    ensures
        file_at(files_without(app.files@, id), id) is None,
        other != id ==> (file_at(files_without(app.files@, id), other) is Some <==> file_at(
            app.files@,
            other,
        ) is Some),
{
    lemma_file_at_found(app.files@, id);
    let after = files_without(app.files@, id);
    assert forall|j: int| 0 <= j < after.len() implies (#[trigger] after[j]).id != id by {
        match file_at(app.files@, id) {
            Some(i) => {
                if j < i {
                    assert(after[j] == app.files@[j]);
                } else {
                    assert(after[j] == app.files@[j + 1]);
                }
            },
            None => {},
        }
    }
    lemma_no_file_at(after, id);
    if other != id {
        lemma_file_at_found(app.files@, other);
        lemma_file_at_found(after, other);
        match file_at(app.files@, id) {
            Some(i) => {
                match file_at(app.files@, other) {
                    Some(k) => {
                        if k < i {
                            assert(after[k] == app.files@[k]);
                        } else {
                            assert(after[k - 1] == app.files@[k]);
                        }
                    },
                    None => {},
                }
                match file_at(after, other) {
                    Some(k) => {
                        if k < i {
                            assert(after[k] == app.files@[k]);
                        } else {
                            assert(after[k] == app.files@[k + 1]);
                        }
                    },
                    None => {},
                }
            },
            None => {},
        }
    }
}

/// The place of a file is one where it stands, and it stands nowhere before.
pub(crate) proof fn lemma_file_at_found(files: Seq<OpenFile>, id: FileId)
    ensures
        match file_at(files, id) {
            Some(i) => 0 <= i < files.len() && files[i].id == id && forall|j: int|
                0 <= j < i ==> (#[trigger] files[j]).id != id,
            None => forall|j: int| 0 <= j < files.len() ==> (#[trigger] files[j]).id != id,
        },
    decreases files.len(),
{
    if files.len() > 0 {
        lemma_file_at_found(files.drop_last(), id);
        assert forall|j: int| 0 <= j < files.len() - 1 implies files.drop_last()[j]
            == #[trigger] files[j] by {}
    }
}

/// Place of the first workspace in which an entry is open.
pub open spec fn entry_holder(list: Seq<Workspace>, id: FileId) -> Option<int>
    decreases list.len(),
{
    if list.len() == 0 {
        None
    } else {
        match entry_holder(list.drop_last(), id) {
            Some(i) => Some(i),
            None => if holds_entry(list.last(), id) {
                Some(list.len() - 1)
            } else {
                None
            },
        }
    }
}

/// Whether an entry is open in a workspace.
pub open spec fn holds_entry(w: Workspace, id: FileId) -> bool {
    w.dock@.holds(DockTab::Inner(WorkspaceTab::Entry(id)))
}

proof fn lemma_entry_holder(list: Seq<Workspace>, id: FileId, i: int)
    requires
        0 <= i < list.len(),
        holds_entry(list[i], id),
        forall|j: int| 0 <= j < i ==> !holds_entry(#[trigger] list[j], id),
    ensures
        entry_holder(list, id) == Some(i),
    decreases list.len(),
{
    if i < list.len() - 1 {
        lemma_entry_holder(list.drop_last(), id, i);
    } else {
        lemma_no_entry_holder(list.drop_last(), id);
    }
}

proof fn lemma_no_entry_holder(list: Seq<Workspace>, id: FileId)
    requires
        forall|j: int| 0 <= j < list.len() ==> !holds_entry(#[trigger] list[j], id),
    ensures
        entry_holder(list, id) is None,
    decreases list.len(),
{
    if list.len() > 0 {
        lemma_no_entry_holder(list.drop_last(), id);
    }
}

/// Whether one list of workspaces is another in which the tab of an entry was
/// closed where it was open first.
pub open spec fn entry_closed(before: Seq<Workspace>, id: FileId, after: Seq<Workspace>) -> bool {
    match entry_holder(before, id) {
        Some(i) => dock_changed(
            before,
            i,
            closed(before[i].dock@, DockTab::Inner(WorkspaceTab::Entry(id))),
            after,
        ),
        None => after == before,
    }
}

fn close_inner(list: &mut Vec<Workspace>, i: usize, tab: DockTab)
    requires
        i < old(list)@.len(),
        old(list)@[i as int].dock.wf(),
    ensures
        dock_changed(
            old(list)@,
            i as int,
            closed(old(list)@[i as int].dock@, tab),
            final(list)@,
        ),
        final(list)@[i as int].dock.wf(),
{
    close_tab(&mut list[i].dock, tab);
}

fn find_entry_holder(list: &Vec<Workspace>, id: FileId) -> (r: Option<usize>)
    ensures
        match (entry_holder(list@, id), r) {
            (Some(a), Some(b)) => a == b && b < list@.len(),
            (None, None) => true,
            _ => false,
        },
{
    let mut i: usize = 0;
    while i < list.len()
        invariant
            i <= list@.len(),
            forall|j: int| 0 <= j < i ==> !holds_entry(#[trigger] list@[j], id),
        decreases list.len() - i,
    {
        if list[i].dock.find_tab(&DockTab::Inner(WorkspaceTab::Entry(id))).is_some() {
            proof {
                lemma_entry_holder(list@, id, i as int);
            }
            return Some(i);
        }
        i = i + 1;
    }
    proof {
        lemma_no_entry_holder(list@, id);
    }
    None
}

/// The last focused file once a file is gone.
pub open spec fn active_without(last: Option<FileId>, id: FileId) -> Option<FileId> {
    if last == Some(id) {
        None
    } else {
        last
    }
}

/// Whether one editor is another in which a file was closed: its tab is gone,
/// in the dock and inside a workspace, and it is neither open nor remembered.
pub open spec fn file_closed(before: HxyApp, id: FileId, after: HxyApp) -> bool {
    &&& after == (HxyApp {
        dock: after.dock,
        workspaces: after.workspaces,
        files: after.files,
        open_tabs: after.open_tabs,
        last_active_file: active_without(before.last_active_file, id),
        ..before
    })
    &&& after.dock@ == closed(before.dock@, DockTab::Outer(Tab::File(id)))
    &&& entry_closed(before.workspaces@, id, after.workspaces@)
    &&& after.files@ == files_without(before.files@, id)
    &&& after.open_tabs@ == tabs_after_drop(before.files@, before.open_tabs@, id)
}

/// Closes the tab of a file, whether or not it has unsaved edits.
pub fn close_file_tab_by_id(app: &mut HxyApp, id: FileId)
    requires
        old(app).wf(),
    ensures
        final(app).wf(),
        file_closed(*old(app), id, *final(app)),
{
    close_tab(&mut app.dock, DockTab::Outer(Tab::File(id)));
    if let Some(i) = find_entry_holder(&app.workspaces, id) {
        close_inner(&mut app.workspaces, i, DockTab::Inner(WorkspaceTab::Entry(id)));
    }
    drop_file(app, id);
    if let Some(last) = app.last_active_file {
        if last == id {
            app.last_active_file = None;
        }
    }
}

/// A closed file does not come back at the next start: once it is closed its
/// source is not remembered, and what else was remembered still is.
pub proof fn law_closed_file_is_forgotten(
    before: HxyApp,
    id: FileId,
    after: HxyApp,
    source: TabSource,
    other: TabSource,
)
    requires
        file_closed(before, id, after),
        file_at(before.files@, id) matches Some(i) && before.files@[i].source == Some(source),
        other@ != source@,
    ensures
        !tab_recorded(after.open_tabs@, source@),
        tab_recorded(after.open_tabs@, other@) == tab_recorded(before.open_tabs@, other@),
{
    law_forgotten(before.open_tabs@, source@, other@);
}

/// The files of a workspace: the mounted one, then the entries that are open.
pub open spec fn workspace_files(w: Workspace) -> Seq<FileId> {
    seq![w.editor_id] + entries_of(tab_list(w.dock@))
}

fn files_of(w: &Workspace) -> (r: Vec<FileId>)
    ensures
        r@ == workspace_files(*w),
{
    let entries = workspace_entries(&w.dock);
    let mut out: Vec<FileId> = Vec::new();
    out.push(w.editor_id);
    let mut i: usize = 0;
    while i < entries.len()
        invariant
            i <= entries@.len(),
            out@ == seq![w.editor_id] + entries@.take(i as int),
        decreases entries.len() - i,
    {
        out.push(entries[i]);
        assert(out@ =~= seq![w.editor_id] + entries@.take(i as int + 1));
        i = i + 1;
    }
    assert(entries@.take(entries@.len() as int) =~= entries@);
    out
}

fn drop_files(app: &mut HxyApp, ids: &Vec<FileId>)
    requires
        old(app).wf(),
    ensures
        final(app).wf(),
        *final(app) == (HxyApp {
            files: final(app).files,
            open_tabs: final(app).open_tabs,
            ..*old(app)
        }),
        (final(app).files@, final(app).open_tabs@) == dropped(
            old(app).files@,
            old(app).open_tabs@,
            ids@,
        ),
{
    let ghost before = *app;
    let mut i: usize = 0;
    assert(ids@.take(0) =~= seq![]);
    while i < ids.len()
        invariant
            i <= ids@.len(),
            app.wf(),
            *app == (HxyApp { files: app.files, open_tabs: app.open_tabs, ..before }),
            (app.files@, app.open_tabs@) == dropped(
                before.files@,
                before.open_tabs@,
                ids@.take(i as int),
            ),
        decreases ids.len() - i,
    {
        assert(ids@.take(i as int + 1).drop_last() =~= ids@.take(i as int));
        drop_file(app, ids[i]);
        i = i + 1;
    }
    assert(ids@.take(ids@.len() as int) =~= ids@);
}

/// The last focused workspace once a workspace is gone.
pub open spec fn workspace_without(last: Option<WorkspaceId>, id: WorkspaceId) -> Option<
    WorkspaceId,
> {
    if last == Some(id) {
        None
    } else {
        last
    }
}

/// Whether one editor is another in which a workspace was closed with all of
/// its files.
pub open spec fn workspace_closed(before: HxyApp, id: WorkspaceId, after: HxyApp) -> bool {
    match workspace_at(before.workspaces@, id) {
        Some(i) => {
            &&& after == (HxyApp {
                dock: after.dock,
                workspaces: after.workspaces,
                files: after.files,
                open_tabs: after.open_tabs,
                last_active_workspace: workspace_without(before.last_active_workspace, id),
                ..before
            })
            &&& after.dock@ == closed(before.dock@, DockTab::Outer(Tab::Workspace(id)))
            &&& after.workspaces@ == before.workspaces@.remove(i)
            &&& (after.files@, after.open_tabs@) == dropped(
                before.files@,
                before.open_tabs@,
                workspace_files(before.workspaces@[i]),
            )
        },
        None => after == before,
    }
}

fn lift_workspace(app: &mut HxyApp, id: WorkspaceId) -> (r: Option<Workspace>)
    requires
        old(app).wf(),
    ensures
        final(app).wf(),
        match (workspace_at(old(app).workspaces@, id), r) {
            (Some(i), Some(w)) => {
                &&& 0 <= i < old(app).workspaces@.len()
                &&& w == old(app).workspaces@[i]
                &&& w.dock.wf()
                &&& *final(app) == (HxyApp {
                    workspaces: final(app).workspaces,
                    last_active_workspace: workspace_without(old(app).last_active_workspace, id),
                    ..*old(app)
                })
                &&& final(app).workspaces@ == old(app).workspaces@.remove(i)
            },
            (None, None) => *final(app) == *old(app),
            _ => false,
        },
{
    let i = match find_workspace(&app.workspaces, id) {
        Some(i) => i,
        None => return None,
    };
    let workspace = app.workspaces.remove(i);
    if let Some(last) = app.last_active_workspace {
        if last == id {
            app.last_active_workspace = None;
        }
    }
    Some(workspace)
}

/// Closes a workspace with all of its files, whether or not they have unsaved
/// edits.
pub fn drop_workspace(app: &mut HxyApp, id: WorkspaceId)
    requires
        old(app).wf(),
    ensures
        final(app).wf(),
        workspace_closed(*old(app), id, *final(app)),
{
    if let Some(workspace) = lift_workspace(app, id) {
        close_tab(&mut app.dock, DockTab::Outer(Tab::Workspace(id)));
        let ids = files_of(&workspace);
        drop_files(app, &ids);
    }
}

/// Whether a file is open with unsaved edits.
pub open spec fn file_dirty(files: Seq<OpenFile>, id: FileId) -> bool {
    file_at(files, id) matches Some(i) && files[i].editor.spec_is_dirty()
}

/// The first of some files with unsaved edits.
pub open spec fn first_dirty(files: Seq<OpenFile>, ids: Seq<FileId>) -> Option<FileId>
    decreases ids.len(),
{
    if ids.len() == 0 {
        None
    } else {
        match first_dirty(files, ids.drop_last()) {
            Some(id) => Some(id),
            None => if file_dirty(files, ids.last()) {
                Some(ids.last())
            } else {
                None
            },
        }
    }
}

fn has_edits(files: &Vec<OpenFile>, id: FileId) -> (r: bool)
    ensures
        r == file_dirty(files@, id),
{
    match find_file(files, id) {
        Some(i) => files[i].editor.is_dirty(),
        None => false,
    }
}

fn find_first_dirty(files: &Vec<OpenFile>, ids: &Vec<FileId>) -> (r: Option<FileId>)
    ensures
        r == first_dirty(files@, ids@),
        r matches Some(id) ==> file_dirty(files@, id),
{
    let mut found: Option<FileId> = None;
    let mut i: usize = 0;
    assert(ids@.take(0) =~= seq![]);
    while i < ids.len()
        invariant
            i <= ids@.len(),
            found == first_dirty(files@, ids@.take(i as int)),
            found matches Some(id) ==> file_dirty(files@, id),
        decreases ids.len() - i,
    {
        assert(ids@.take(i as int + 1).drop_last() =~= ids@.take(i as int));
        if found.is_none() && has_edits(files, ids[i]) {
            found = Some(ids[i]);
        }
        i = i + 1;
    }
    assert(ids@.take(ids@.len() as int) =~= ids@);
    found
}

/// Whether a close request names a file.
pub open spec fn asks_close(pending: Option<PendingCloseTab>, files: Seq<OpenFile>, id: FileId)
    -> bool {
    pending matches Some(p) && p.file_id == id && (file_at(files, id) matches Some(i)
        && p.display_name@ == files[i].display_name@)
}

/// Asks before a file with unsaved edits is closed.
fn stage_close(app: &mut HxyApp, id: FileId)
    requires
        old(app).wf(),
        file_at(old(app).files@, id) is Some,
    ensures
        final(app).wf(),
        *final(app) == (HxyApp { pending_close_tab: final(app).pending_close_tab, ..*old(app) }),
        asks_close(final(app).pending_close_tab, old(app).files@, id),
{
    if let Some(i) = find_file(&app.files, id) {
        let display_name = app.files[i].display_name.clone();
        app.pending_close_tab = Some(PendingCloseTab { file_id: id, display_name });
    }
}

/// Whether one editor is another in which a workspace was asked to close: the
/// first of its files with unsaved edits is asked about, and without any it is
/// closed.
pub open spec fn workspace_close_asked(before: HxyApp, id: WorkspaceId, after: HxyApp) -> bool {
    match workspace_at(before.workspaces@, id) {
        Some(i) => match first_dirty(before.files@, workspace_files(before.workspaces@[i])) {
            Some(file) => after == (HxyApp { pending_close_tab: after.pending_close_tab, ..before })
                && asks_close(after.pending_close_tab, before.files@, file),
            None => workspace_closed(before, id, after),
        },
        None => after == before,
    }
}

/// Closes a workspace, unless a file in it has unsaved edits: then that file is
/// asked about first and the workspace stays.
pub fn close_workspace_by_id(app: &mut HxyApp, id: WorkspaceId)
    requires
        old(app).wf(),
    ensures
        final(app).wf(),
        workspace_close_asked(*old(app), id, *final(app)),
{
    let i = match find_workspace(&app.workspaces, id) {
        Some(i) => i,
        None => return,
    };
    let ids = files_of(&app.workspaces[i]);
    match find_first_dirty(&app.files, &ids) {
        Some(file) => stage_close(app, file),
        None => drop_workspace(app, id),
    }
}

/// No unsaved edit is lost by closing a workspace: where one of its files has
/// any, nothing is closed.
pub proof fn law_dirty_workspace_stays(
    before: HxyApp,
    id: WorkspaceId,
    after: HxyApp,
    w: int,
    file: FileId,
)
    requires
        workspace_close_asked(before, id, after),
        workspace_at(before.workspaces@, id) == Some(w),
        workspace_files(before.workspaces@[w]).contains(file),
        file_dirty(before.files@, file),
    ensures
        after.files == before.files,
        after.workspaces == before.workspaces,
        after.dock == before.dock,
        after.pending_close_tab is Some,
{
    let all = workspace_files(before.workspaces@[w]);
    let k = choose|k: int| 0 <= k < all.len() && all[k] == file;
    lemma_first_dirty(before.files@, all, k);
}

proof fn lemma_first_dirty(files: Seq<OpenFile>, ids: Seq<FileId>, k: int)
    requires
        0 <= k < ids.len(),
        file_dirty(files, ids[k]),
    ensures
        first_dirty(files, ids) is Some,
    decreases ids.len(),
{
    if k < ids.len() - 1 {
        lemma_first_dirty(files, ids.drop_last(), k);
    }
}

/// Whether one editor is another in which a workspace became the plain tab of
/// its mounted file, in the place of its own.
pub open spec fn collapsed_to(before: HxyApp, id: WorkspaceId, after: HxyApp) -> bool {
    match workspace_at(before.workspaces@, id) {
        Some(i) => {
            let editor = before.workspaces@[i].editor_id;
            let tab = DockTab::Outer(Tab::File(editor));
            &&& after == (HxyApp {
                dock: after.dock,
                workspaces: after.workspaces,
                open_tabs: after.open_tabs,
                last_active_workspace: workspace_without(before.last_active_workspace, id),
                ..before
            })
            &&& after.dock@ == in_place_of(before.dock@, DockTab::Outer(Tab::Workspace(id)), tab)
            &&& after.workspaces@ == before.workspaces@.remove(i)
            &&& after.open_tabs@ == file_marked(before, editor, false)
        },
        None => after == before,
    }
}

/// Turns a workspace in which only the mounted file is left into that file's
/// plain tab.
pub fn collapse_workspace_to_file(app: &mut HxyApp, id: WorkspaceId)
    requires
        old(app).wf(),
    ensures
        final(app).wf(),
        collapsed_to(*old(app), id, *final(app)),
{
    if let Some(workspace) = lift_workspace(app, id) {
        let tab = DockTab::Outer(Tab::File(workspace.editor_id));
        take_place(&mut app.dock, DockTab::Outer(Tab::Workspace(id)), tab);
        mark_file(app, workspace.editor_id, false);
    }
}

/// Whether one editor is another in which a plugin's mount was dropped and its
/// source forgotten.
pub open spec fn mount_dropped(before: HxyApp, id: MountId, after: HxyApp) -> bool {
    &&& after == (HxyApp { mounts: after.mounts, open_tabs: after.open_tabs, ..before })
    &&& match mount_at(before.mounts@, id) {
        Some(i) => after.mounts@ == before.mounts@.remove(i) && after.open_tabs@ == tabs_without(
            before.open_tabs@,
            mount_source(before.mounts@[i]),
        ),
        None => after == before,
    }
}

/// Drops a plugin's mount and forgets its source.
pub fn drop_mount(app: &mut HxyApp, id: MountId)
    requires
        old(app).wf(),
    ensures
        final(app).wf(),
        mount_dropped(*old(app), id, *final(app)),
{
    if let Some(i) = find_mount(&app.mounts, id) {
        let removed = app.mounts.remove(i);
        let target = TabSource::PluginMount {
            plugin_name: removed.plugin_name,
            token: removed.token,
            title: removed.display_name,
        };
        proof {
            law_forgotten(app.open_tabs@, target@, target@);
        }
        forget_source(&mut app.open_tabs, &target);
    }
}

/// Whether one editor is another in which only the dock changed.
pub open spec fn redocked(before: HxyApp, view: DockView, after: HxyApp) -> bool {
    after == (HxyApp { dock: after.dock, ..before }) && after.dock@ == view
}

/// Whether one editor is another in which the focused tab was asked to close.
/// The placeholder page and the settings stay. A file with unsaved edits is
/// asked about first, and so are the files of a workspace. A plugin's mount
/// goes with its tab, and the search over all files ends with its results.
pub open spec fn close_asked(before: HxyApp, after: HxyApp) -> bool {
    match focused_tab(before.dock@) {
        Some(DockTab::Outer(tab)) => match tab {
            Tab::Welcome | Tab::Settings => after == before,
            Tab::File(id) => if file_dirty(before.files@, id) {
                after == (HxyApp { pending_close_tab: after.pending_close_tab, ..before })
                    && asks_close(after.pending_close_tab, before.files@, id)
            } else {
                file_closed(before, id, after)
            },
            Tab::Workspace(id) => workspace_close_asked(before, id, after),
            Tab::PluginMount(id) => exists|mid: HxyApp| #[trigger]
                redocked(before, closed(before.dock@, DockTab::Outer(tab)), mid) && mount_dropped(
                    mid,
                    id,
                    after,
                ),
            Tab::SearchResults => after == (HxyApp {
                dock: after.dock,
                global_search: after.global_search,
                ..before
            }) && after.dock@ == closed(before.dock@, DockTab::Outer(tab)) && after.global_search
                == (crate::session::GlobalSearchState { open: false, ..before.global_search }),
            _ => redocked(before, closed(before.dock@, DockTab::Outer(tab)), after),
        },
        _ => after == before,
    }
}

/// Closes the focused tab, or asks first where edits would be lost.
pub fn request_close_active_tab(app: &mut HxyApp)
    requires
        old(app).wf(),
    ensures
        final(app).wf(),
        close_asked(*old(app), *final(app)),
{
    let tab = match active_focused(&app.dock) {
        Some(DockTab::Outer(tab)) => tab,
        _ => return,
    };
    match tab {
        Tab::Welcome | Tab::Settings => {},
        Tab::File(id) => {
            if has_edits(&app.files, id) {
                stage_close(app, id);
            } else {
                close_file_tab_by_id(app, id);
            }
        },
        Tab::Workspace(id) => close_workspace_by_id(app, id),
        Tab::PluginMount(id) => {
            close_tab(&mut app.dock, DockTab::Outer(tab));
            let ghost mid = *app;
            assert(redocked(*old(app), closed(old(app).dock@, DockTab::Outer(tab)), mid));
            drop_mount(app, id);
        },
        Tab::SearchResults => {
            close_tab(&mut app.dock, DockTab::Outer(tab));
            app.global_search.open = false;
        },
        _ => {
            close_tab(&mut app.dock, DockTab::Outer(tab));
        },
    }
}

/// What the user answers when asked about unsaved edits.
#[derive(Clone, Copy, Debug, PartialEq, Eq, Structural)]
pub enum CloseTabAction {
    Save,
    Discard,
    Cancel,
}

/// Whether one editor is another in which a file was let go. One that a
/// workspace mounts takes the workspace with it, unless an entry there has
/// unsaved edits: then that one is asked about next, and nothing is closed.
pub open spec fn file_gone(before: HxyApp, id: FileId, after: HxyApp) -> bool {
    match workspace_of_file(before.workspaces@, id) {
        Some(i) => {
            let w = before.workspaces@[i];
            match first_dirty(before.files@, entries_of(tab_list(w.dock@))) {
                Some(entry) => after == (HxyApp {
                    pending_close_tab: after.pending_close_tab,
                    ..before
                }) && asks_close(after.pending_close_tab, before.files@, entry),
                None => workspace_closed(before, w.id, after),
            }
        },
        None => file_closed(before, id, after),
    }
}

fn let_go(app: &mut HxyApp, id: FileId)
    requires
        old(app).wf(),
    ensures
        final(app).wf(),
        file_gone(*old(app), id, *final(app)),
{
    match find_workspace_of_file(&app.workspaces, id) {
        Some(i) => {
            let wid = app.workspaces[i].id;
            let entries = workspace_entries(&app.workspaces[i].dock);
            match find_first_dirty(&app.files, &entries) {
                Some(entry) => stage_close(app, entry),
                None => drop_workspace(app, wid),
            }
        },
        None => close_file_tab_by_id(app, id),
    }
}

/// Letting the mounted file of a workspace go loses no unsaved edit of an entry
/// there: all stays open and that entry is asked about.
pub proof fn law_entries_outlive_mounted_file(
    before: HxyApp,
    id: FileId,
    after: HxyApp,
    w: int,
    entry: FileId,
)
    requires
        file_gone(before, id, after),
        workspace_of_file(before.workspaces@, id) == Some(w),
        entries_of(tab_list(before.workspaces@[w].dock@)).contains(entry),
        file_dirty(before.files@, entry),
    ensures
        after.files == before.files,
        after.workspaces == before.workspaces,
        after.pending_close_tab is Some,
{
    let all = entries_of(tab_list(before.workspaces@[w].dock@));
    let k = choose|k: int| 0 <= k < all.len() && all[k] == entry;
    lemma_first_dirty(before.files@, all, k);
}

/// The editor without the question about unsaved edits.
pub open spec fn unasked(app: HxyApp) -> HxyApp {
    HxyApp { pending_close_tab: None, ..app }
}

/// Whether the answer to the question about unsaved edits was taken.
pub open spec fn close_answered(
    before: HxyApp,
    action: CloseTabAction,
    r: Option<FileId>,
    after: HxyApp,
) -> bool {
    match before.pending_close_tab {
        Some(pending) => match action {
            CloseTabAction::Save => r == Some(pending.file_id) && after == unasked(before),
            CloseTabAction::Discard => r is None && file_gone(
                unasked(before),
                pending.file_id,
                after,
            ),
            CloseTabAction::Cancel => r is None && after == unasked(before),
        },
        None => r is None && after == before,
    }
}

/// Takes the answer to the question about unsaved edits. Returns the file that
/// is to be saved before it closes.
pub fn answer_close(app: &mut HxyApp, action: CloseTabAction) -> (r: Option<FileId>)
    requires
        old(app).wf(),
    ensures
        final(app).wf(),
        close_answered(*old(app), action, r, *final(app)),
{
    let id = match &app.pending_close_tab {
        Some(pending) => pending.file_id,
        None => return None,
    };
    app.pending_close_tab = None;
    match action {
        CloseTabAction::Save => Some(id),
        CloseTabAction::Discard => {
            let_go(app, id);
            None
        },
        CloseTabAction::Cancel => None,
    }
}

/// Whether a file was closed after it was to be saved, where it was.
pub open spec fn close_finished(before: HxyApp, id: FileId, saved: bool, after: HxyApp) -> bool {
    if saved {
        file_gone(before, id, after)
    } else {
        after == before
    }
}

/// Closes a file after it was to be saved: only where the bytes were written.
pub fn finish_close(app: &mut HxyApp, id: FileId, saved: bool)
    requires
        old(app).wf(),
    ensures
        final(app).wf(),
        close_finished(*old(app), id, saved, *final(app)),
{
    if saved {
        let_go(app, id);
    }
}

/// The number of a scratch file's buffer; none for other files.
pub open spec fn scratch_of(file: OpenFile) -> Option<u64> {
    match file.source {
        Some(TabSource::Anonymous { id, .. }) => Some(id),
        _ => None,
    }
}

/// Whether the buffer of a scratch file is open.
pub open spec fn scratch_open(files: Seq<OpenFile>, n: u64) -> bool {
    exists|i: int| 0 <= i < files.len() && scratch_of(#[trigger] files[i]) == Some(n)
}

/// The numbers of the scratch files among some files, in order.
pub open spec fn scratches_of(files: Seq<OpenFile>) -> Seq<u64>
    decreases files.len(),
{
    if files.len() == 0 {
        seq![]
    } else {
        match scratch_of(files.last()) {
            Some(n) => scratches_of(files.drop_last()).push(n),
            None => scratches_of(files.drop_last()),
        }
    }
}

/// Lists the numbers of the scratch files that are open.
pub fn open_scratches(files: &Vec<OpenFile>) -> (r: Vec<u64>)
    ensures
        r@ == scratches_of(files@),
{
    let mut out: Vec<u64> = Vec::new();
    let mut i: usize = 0;
    assert(files@.take(0) =~= seq![]);
    while i < files.len()
        invariant
            i <= files@.len(),
            out@ == scratches_of(files@.take(i as int)),
        decreases files.len() - i,
    {
        assert(files@.take(i as int + 1).drop_last() =~= files@.take(i as int));
        if let Some(TabSource::Anonymous { id, .. }) = &files[i].source {
            out.push(*id);
        }
        i = i + 1;
    }
    assert(files@.take(files@.len() as int) =~= files@);
    out
}

/// The scratch files of a list that are not open any more, in order.
pub open spec fn scratches_gone(before: Seq<u64>, files: Seq<OpenFile>) -> Seq<u64>
    decreases before.len(),
{
    if before.len() == 0 {
        seq![]
    } else if scratch_open(files, before.last()) {
        scratches_gone(before.drop_last(), files)
    } else {
        scratches_gone(before.drop_last(), files).push(before.last())
    }
}

fn is_scratch_open(files: &Vec<OpenFile>, n: u64) -> (r: bool)
    ensures
        r == scratch_open(files@, n),
{
    let mut i: usize = 0;
    while i < files.len()
        invariant
            i <= files@.len(),
            forall|j: int| 0 <= j < i ==> scratch_of(#[trigger] files@[j]) != Some(n),
        decreases files.len() - i,
    {
        if let Some(TabSource::Anonymous { id, .. }) = &files[i].source {
            if *id == n {
                assert(scratch_of(files@[i as int]) == Some(n));
                return true;
            }
        }
        i = i + 1;
    }
    false
}

/// Tells which scratch files were closed, so that the buffers that were kept for
/// them are to be removed. `before` lists those that were open.
pub fn closed_scratches(before: &Vec<u64>, files: &Vec<OpenFile>) -> (r: Vec<u64>)
    ensures
        r@ == scratches_gone(before@, files@),
{
    let mut out: Vec<u64> = Vec::new();
    let mut i: usize = 0;
    assert(before@.take(0) =~= seq![]);
    while i < before.len()
        invariant
            i <= before@.len(),
            out@ == scratches_gone(before@.take(i as int), files@),
        decreases before.len() - i,
    {
        assert(before@.take(i as int + 1).drop_last() =~= before@.take(i as int));
        if !is_scratch_open(files, before[i]) {
            out.push(before[i]);
        }
        i = i + 1;
    }
    assert(before@.take(before@.len() as int) =~= before@);
    out
}

proof fn lemma_scratch_listed(files: Seq<OpenFile>, i: int)
    requires
        0 <= i < files.len(),
        scratch_of(files[i]) is Some,
    ensures
        scratches_of(files).contains(scratch_of(files[i])->0),
    decreases files.len(),
{
    let all = scratches_of(files);
    if i == files.len() - 1 {
        assert(all[all.len() - 1] == scratch_of(files[i])->0);
    } else {
        lemma_scratch_listed(files.drop_last(), i);
        let rest = scratches_of(files.drop_last());
        let k = choose|k: int| 0 <= k < rest.len() && rest[k] == scratch_of(files[i])->0;
        assert(all[k] == rest[k]);
    }
}

proof fn lemma_scratch_gone(before: Seq<u64>, files: Seq<OpenFile>, k: int)
    requires
        0 <= k < before.len(),
        !scratch_open(files, before[k]),
    ensures
        scratches_gone(before, files).contains(before[k]),
    decreases before.len(),
{
    let all = scratches_gone(before, files);
    if k == before.len() - 1 {
        assert(all[all.len() - 1] == before[k]);
    } else {
        lemma_scratch_gone(before.drop_last(), files, k);
        let rest = scratches_gone(before.drop_last(), files);
        let i = choose|i: int| 0 <= i < rest.len() && rest[i] == before[k];
        assert(all[i] == rest[i]);
    }
}

/// The buffer of a scratch file is removed once the file is closed without being
/// saved.
pub proof fn law_closed_scratch_is_removed(before: HxyApp, i: int, after: HxyApp)
    requires
        before.wf(),
        0 <= i < before.files@.len(),
        scratch_of(before.files@[i]) is Some,
        forall|j: int|
            0 <= j < before.files@.len() && j != i ==> scratch_of(#[trigger] before.files@[j])
                != scratch_of(before.files@[i]),
        file_closed(before, before.files@[i].id, after) || file_dropped(
            before,
            before.files@[i].id,
            after,
        ),
    ensures
        scratches_gone(scratches_of(before.files@), after.files@).contains(
            scratch_of(before.files@[i])->0,
        ),
{
    let n = scratch_of(before.files@[i])->0;
    let id = before.files@[i].id;
    lemma_scratch_listed(before.files@, i);
    lemma_file_at_found(before.files@, id);
    let p = file_at(before.files@, id)->0;
    assert(p == i);
    if scratch_open(after.files@, n) {
        let k = choose|k: int|
            0 <= k < after.files@.len() && scratch_of(#[trigger] after.files@[k]) == Some(n);
        let j = if k < i {
            k
        } else {
            k + 1
        };
        assert(after.files@[k] == before.files@[j]);
    }
    let list = scratches_of(before.files@);
    let k = choose|k: int| 0 <= k < list.len() && list[k] == n;
    lemma_scratch_gone(list, after.files@, k);
}

/// A remembered tab with the mark of an open visualizer set or not.
pub open spec fn visualizer_marked(tabs: Seq<OpenTabState>, source: SourceView, mark: bool) -> Seq<
    OpenTabState,
> {
    match tab_index(tabs, source) {
        Some(i) => tabs.update(i, OpenTabState { visualizer_open: mark, ..tabs[i] }),
        None => tabs,
    }
}

/// Whether one editor is another in which a file's visualizer is marked as
/// open or as closed by the user, for the next start too.
pub open spec fn visualizer_set(before: HxyApp, id: FileId, mark: bool, after: HxyApp) -> bool {
    match file_at(before.files@, id) {
        Some(i) => {
            &&& after == (HxyApp { files: after.files, open_tabs: after.open_tabs, ..before })
            &&& after.files@ == before.files@.update(
                i,
                OpenFile {
                    visualizer_open: mark,
                    visualizer_dismissed: !mark,
                    ..before.files@[i]
                },
            )
            &&& after.open_tabs@ == match before.files@[i].source {
                Some(s) => visualizer_marked(before.open_tabs@, s@, mark),
                None => before.open_tabs@,
            }
        },
        None => after == before,
    }
}

/// Marks a file's visualizer as open or as closed by the user, for the next
/// start too.
pub fn set_visualizer(app: &mut HxyApp, id: FileId, mark: bool)
    requires
        old(app).wf(),
    ensures
        final(app).wf(),
        visualizer_set(*old(app), id, mark, *final(app)),
{
    if let Some(i) = find_file(&app.files, id) {
        app.files[i].visualizer_open = mark;
        app.files[i].visualizer_dismissed = !mark;
        assert(app.files@ =~= old(app).files@.update(
            i as int,
            OpenFile {
                visualizer_open: mark,
                visualizer_dismissed: !mark,
                ..old(app).files@[i as int]
            },
        ));
        if let Some(source) = &app.files[i].source {
            if let Some(k) = find_tab_state(&app.open_tabs, source) {
                let ghost tabs = app.open_tabs@;
                app.open_tabs[k].visualizer_open = mark;
                assert(app.open_tabs@ =~= visualizer_marked(tabs, source@, mark));
                assert forall|a: int, b: int| 0 <= a < b < app.open_tabs@.len() implies (
                #[trigger] app.open_tabs@[a]).source@ != (#[trigger] app.open_tabs@[b]).source@ by {
                    assert(tabs[a].source@ != tabs[b].source@);
                }
            }
        }
    }
}

/// Whether one editor is another after a file was dropped: it is neither open
/// nor remembered, and its tab is left to the dock.
pub open spec fn file_dropped(before: HxyApp, id: FileId, after: HxyApp) -> bool {
    &&& after == (HxyApp { files: after.files, open_tabs: after.open_tabs, ..before })
    &&& after.files@ == files_without(before.files@, id)
    &&& after.open_tabs@ == tabs_after_drop(before.files@, before.open_tabs@, id)
}

/// Whether one editor is another after the cross of a tab was clicked, and
/// whether the dock may take the tab away. Files with unsaved edits are asked
/// about first.
pub open spec fn cross_clicked(before: HxyApp, tab: Tab, may_close: bool, after: HxyApp) -> bool {
    match tab {
        Tab::File(id) => if file_dirty(before.files@, id) {
            !may_close && after == (HxyApp { pending_close_tab: after.pending_close_tab, ..before })
                && asks_close(after.pending_close_tab, before.files@, id)
        } else {
            may_close && file_dropped(before, id, after)
        },
        Tab::PluginMount(id) => may_close && after == (HxyApp {
            pending_close_mount: Some(id),
            ..before
        }),
        Tab::Visualizer(id) => may_close && visualizer_set(before, id, false, after),
        Tab::Workspace(id) => match workspace_at(before.workspaces@, id) {
            None => may_close && after == before,
            Some(i) => match first_dirty(before.files@, workspace_files(before.workspaces@[i])) {
                Some(file) => !may_close && after == (HxyApp {
                    pending_close_tab: after.pending_close_tab,
                    ..before
                }) && asks_close(after.pending_close_tab, before.files@, file),
                None => {
                    &&& may_close
                    &&& after == (HxyApp {
                        workspaces: after.workspaces,
                        files: after.files,
                        open_tabs: after.open_tabs,
                        ..before
                    })
                    &&& after.workspaces@ == before.workspaces@.remove(i)
                    &&& (after.files@, after.open_tabs@) == dropped(
                        before.files@,
                        before.open_tabs@,
                        workspace_files(before.workspaces@[i]),
                    )
                },
            },
        },
        _ => may_close && after == before,
    }
}

/// Takes over that the cross of a tab was clicked. Returns whether the dock may
/// take the tab away.
pub fn on_close(app: &mut HxyApp, tab: Tab) -> (r: bool)
    requires
        old(app).wf(),
    ensures
        final(app).wf(),
        cross_clicked(*old(app), tab, r, *final(app)),
{
    match tab {
        Tab::File(id) => {
            if has_edits(&app.files, id) {
                stage_close(app, id);
                false
            } else {
                drop_file(app, id);
                true
            }
        },
        Tab::PluginMount(id) => {
            app.pending_close_mount = Some(id);
            true
        },
        Tab::Visualizer(id) => {
            set_visualizer(app, id, false);
            true
        },
        Tab::Workspace(id) => {
            let i = match find_workspace(&app.workspaces, id) {
                Some(i) => i,
                None => return true,
            };
            let ids = files_of(&app.workspaces[i]);
            match find_first_dirty(&app.files, &ids) {
                Some(file) => {
                    stage_close(app, file);
                    false
                },
                None => {
                    app.workspaces.remove(i);
                    drop_files(app, &ids);
                    true
                },
            }
        },
        _ => true,
    }
}

/// Whether one editor is another after the cross of a tab inside a workspace
/// was clicked, and whether the dock may take the tab away.
pub open spec fn inner_cross_clicked(
    before: HxyApp,
    tab: WorkspaceTab,
    may_close: bool,
    after: HxyApp,
) -> bool {
    match tab {
        WorkspaceTab::Entry(id) => if file_dirty(before.files@, id) {
            !may_close && after == (HxyApp {
                pending_close_workspace_entry: after.pending_close_workspace_entry,
                ..before
            }) && asks_close(after.pending_close_workspace_entry, before.files@, id)
        } else {
            may_close && file_dropped(before, id, after)
        },
        _ => may_close && after == before,
    }
}

/// Takes over that the cross of a tab inside a workspace was clicked. Returns
/// whether the dock may take the tab away.
pub fn on_close_inside(app: &mut HxyApp, tab: WorkspaceTab) -> (r: bool)
    requires
        old(app).wf(),
    ensures
        final(app).wf(),
        inner_cross_clicked(*old(app), tab, r, *final(app)),
{
    if let WorkspaceTab::Entry(id) = tab {
        if let Some(i) = find_file(&app.files, id) {
            if app.files[i].editor.is_dirty() {
                let display_name = app.files[i].display_name.clone();
                app.pending_close_workspace_entry = Some(
                    PendingCloseTab { file_id: id, display_name },
                );
                return false;
            }
        }
        drop_file(app, id);
    }
    true
}

/// Whether a file with an id is among some.
pub open spec fn is_open(files: Seq<OpenFile>, id: FileId) -> bool {
    exists|i: int| 0 <= i < files.len() && (#[trigger] files[i]).id == id
}

proof fn lemma_only_one_gone(before: HxyApp, id: FileId, i: int)
    requires
        before.wf(),
    ensures
        !is_open(files_without(before.files@, id), id),
        0 <= i < before.files@.len() && before.files@[i].id != id ==> files_without(
            before.files@,
            id,
        ).contains(before.files@[i]),
        files_without(before.files@, id).len() <= before.files@.len(),
{
    lemma_file_at_found(before.files@, id);
    let left = files_without(before.files@, id);
    match file_at(before.files@, id) {
        Some(k) => {
            assert forall|j: int| 0 <= j < left.len() implies (#[trigger] left[j]).id != id by {
                let at = if j < k {
                    j
                } else {
                    j + 1
                };
                assert(left[j] == before.files@[at]);
                assert(before.files@[at].id.0 != before.files@[k].id.0);
            }
            if 0 <= i < before.files@.len() && i != k {
                let at = if i < k {
                    i
                } else {
                    i - 1
                };
                assert(left[at] == before.files@[i]);
            }
        },
        None => {
            if 0 <= i < before.files@.len() {
                assert(left[i] == before.files@[i]);
            }
        },
    }
}

/// Closing a file takes that file and no other: afterwards no file has its id, and every
/// other is there as it was.
pub proof fn law_closing_takes_one_file(before: HxyApp, id: FileId, after: HxyApp, i: int)
    requires
        before.wf(),
        file_closed(before, id, after) || file_dropped(before, id, after),
    ensures
        !is_open(after.files@, id),
        0 <= i < before.files@.len() && before.files@[i].id != id ==> after.files@.contains(
            before.files@[i],
        ),
{
    lemma_only_one_gone(before, id, i);
}

/// Closing the tab in front, or clicking the cross of a tab, closes a file only where it
/// has no unsaved edits. With any, every file stays open, and the question names the file.
pub proof fn law_unsaved_file_is_asked_about(
    before: HxyApp,
    i: int,
    asked: HxyApp,
    may_close: bool,
    clicked: HxyApp,
)
    requires
        before.wf(),
        0 <= i < before.files@.len(),
        focused_tab(before.dock@) == Some(DockTab::Outer(Tab::File(before.files@[i].id))),
        close_asked(before, asked),
        cross_clicked(before, Tab::File(before.files@[i].id), may_close, clicked),
    ensures
        before.files@[i].editor.spec_is_dirty() ==> {
            &&& asked.files == before.files && clicked.files == before.files
            &&& asked.dock == before.dock && clicked.dock == before.dock && !may_close
            &&& asked.pending_close_tab matches Some(p) && p.file_id == before.files@[i].id
                && p.display_name@ == before.files@[i].display_name@
            &&& clicked.pending_close_tab matches Some(p) && p.file_id == before.files@[i].id
        },
        !before.files@[i].editor.spec_is_dirty() ==> {
            &&& !is_open(asked.files@, before.files@[i].id)
            &&& !is_open(clicked.files@, before.files@[i].id) && may_close
            &&& asked.pending_close_tab == before.pending_close_tab
        },
{
    let id = before.files@[i].id;
    crate::session::lemma_file_at(before.files@, id, i);
    lemma_only_one_gone(before, id, i);
}

/// The placeholder page and the settings are not closed, and neither is anything where
/// no tab is in front.
pub proof fn law_pages_are_not_closed(before: HxyApp, after: HxyApp)
    requires
        close_asked(before, after),
        focused_tab(before.dock@) is None || focused_tab(before.dock@) == Some(
            DockTab::Outer(Tab::Welcome),
        ) || focused_tab(before.dock@) == Some(DockTab::Outer(Tab::Settings)),
    ensures
        after == before,
{
}

/// Cancel keeps everything open; save hands the file back to be saved and keeps
/// everything open until it was; discard closes the file that was asked about. The
/// question is gone in any case.
pub proof fn law_answer_decides_about_file(
    before: HxyApp,
    action: CloseTabAction,
    r: Option<FileId>,
    after: HxyApp,
    pending: PendingCloseTab,
)
    requires
        before.wf(),
        before.pending_close_tab == Some(pending),
        close_answered(before, action, r, after),
    ensures
        action is Cancel ==> r is None && after.files == before.files && after.dock == before.dock
            && after.pending_close_tab is None,
        action is Save ==> r == Some(pending.file_id) && after.files == before.files && after.dock
            == before.dock && after.pending_close_tab is None,
        action is Discard && workspace_of_file(before.workspaces@, pending.file_id) is None ==> r
            is None && !is_open(after.files@, pending.file_id) && after.pending_close_tab is None,
{
    if action is Discard {
        lemma_only_one_gone(unasked(before), pending.file_id, 0);
    }
}

/// A file that could not be saved is not closed.
pub proof fn law_unsaved_file_is_not_closed(before: HxyApp, id: FileId, saved: bool, after: HxyApp)
    requires
        before.wf(),
        close_finished(before, id, saved, after),
    ensures
        !saved ==> after == before,
        saved && workspace_of_file(before.workspaces@, id) is None ==> !is_open(after.files@, id),
{
    lemma_only_one_gone(before, id, 0);
}

/// The file that is asked about when a workspace closes is the first of its files that
/// has unsaved edits.
pub proof fn law_first_unsaved_file_is_asked_about(files: Seq<OpenFile>, ids: Seq<FileId>)
    ensures
        match first_dirty(files, ids) {
            Some(id) => exists|k: int|
                0 <= k < ids.len() && #[trigger] ids[k] == id && file_dirty(files, id)
                    && forall|j: int| 0 <= j < k ==> !file_dirty(files, #[trigger] ids[j]),
            None => forall|j: int| 0 <= j < ids.len() ==> !file_dirty(files, #[trigger] ids[j]),
        },
    decreases ids.len(),
{
    if ids.len() > 0 {
        let init = ids.drop_last();
        let n = init.len() as int;
        law_first_unsaved_file_is_asked_about(files, init);
        assert(ids.last() == ids[n]);
        match first_dirty(files, init) {
            Some(id) => {
                let k = choose|k: int|
                    0 <= k < init.len() && #[trigger] init[k] == id && file_dirty(files, id)
                        && forall|j: int| 0 <= j < k ==> !file_dirty(files, #[trigger] init[j]);
                assert(ids[k] == init[k]);
                assert forall|j: int| 0 <= j < k implies !file_dirty(files, #[trigger] ids[j]) by {
                    assert(ids[j] == init[j]);
                }
            },
            None => {
                assert forall|j: int| 0 <= j < n implies !file_dirty(files, #[trigger] ids[j]) by {
                    assert(ids[j] == init[j]);
                }
                if file_dirty(files, ids.last()) {
                    assert(ids[n] == ids.last());
                }
            },
        }
    }
}

/// Several files are dropped one after the other: each goes, and no other.
pub proof fn law_dropping_files_takes_each(
    files: Seq<OpenFile>,
    tabs: Seq<OpenTabState>,
    ids: Seq<FileId>,
    id: FileId,
)
    ensures
        dropped(files, tabs, seq![]) == (files, tabs),
        dropped(files, tabs, ids.push(id)).0 == files_without(dropped(files, tabs, ids).0, id),
{
    assert(ids.push(id).drop_last() =~= ids);
}

/// A file's visualizer that is closed is remembered as closed by the user, one that is
/// opened as open; no other file changes.
pub proof fn law_visualizer_is_remembered(
    before: HxyApp,
    i: int,
    mark: bool,
    after: HxyApp,
    k: int,
)
    requires
        before.wf(),
        0 <= i < before.files@.len(),
        visualizer_set(before, before.files@[i].id, mark, after),
    ensures
        after.files@[i].visualizer_open == mark,
        after.files@[i].visualizer_dismissed == !mark,
        after.files@[i].editor == before.files@[i].editor,
        0 <= k < before.files@.len() && k != i ==> after.files@[k] == before.files@[k],
{
    crate::session::lemma_file_at(before.files@, before.files@[i].id, i);
}

/// The cross of an entry inside a workspace closes it only where it has no unsaved
/// edits; the tree panel and other tabs lose no file.
pub proof fn law_unsaved_entry_is_asked_about(
    before: HxyApp,
    tab: WorkspaceTab,
    may_close: bool,
    after: HxyApp,
    i: int,
)
    requires
        before.wf(),
        inner_cross_clicked(before, tab, may_close, after),
        0 <= i < before.files@.len(),
    ensures
        tab == WorkspaceTab::Entry(before.files@[i].id) ==> {
            &&& before.files@[i].editor.spec_is_dirty() ==> !may_close && after.files
                == before.files && (after.pending_close_workspace_entry matches Some(p)
                && p.file_id == before.files@[i].id)
            &&& !before.files@[i].editor.spec_is_dirty() ==> may_close && !is_open(
                after.files@,
                before.files@[i].id,
            )
        },
        !(tab is Entry) ==> may_close && after == before,
{
    crate::session::lemma_file_at(before.files@, before.files@[i].id, i);
    lemma_only_one_gone(before, before.files@[i].id, i);
}

/// Closing a workspace takes that workspace and no other out of the list, and commands
/// no longer act on it.
pub proof fn law_closed_workspace_is_gone(before: HxyApp, after: HxyApp, i: int, k: int)
    requires
        before.wf(),
        0 <= i < before.workspaces@.len(),
        workspace_closed(before, before.workspaces@[i].id, after),
    ensures
        after.workspaces@.len() + 1 == before.workspaces@.len(),
        0 <= k < i ==> after.workspaces@[k] == before.workspaces@[k],
        i <= k < after.workspaces@.len() ==> after.workspaces@[k] == before.workspaces@[k + 1],
        before.last_active_workspace == Some(before.workspaces@[i].id)
            ==> after.last_active_workspace is None,
        before.last_active_workspace != Some(before.workspaces@[i].id)
            ==> after.last_active_workspace == before.last_active_workspace,
        after.mounts == before.mounts && after.settings == before.settings,
{
    crate::session::lemma_workspace_at(before.workspaces@, before.workspaces@[i].id, i);
}

/// A workspace that becomes a file again leaves the list; all files stay open as they
/// are, and the file's tab stands where that of the workspace stood.
pub proof fn law_collapsed_workspace_leaves_its_files(
    before: HxyApp,
    after: HxyApp,
    i: int,
    k: int,
)
    requires
        before.wf(),
        0 <= i < before.workspaces@.len(),
        collapsed_to(before, before.workspaces@[i].id, after),
    ensures
        after.files == before.files,
        after.workspaces@.len() + 1 == before.workspaces@.len(),
        0 <= k < i ==> after.workspaces@[k] == before.workspaces@[k],
        i <= k < after.workspaces@.len() ==> after.workspaces@[k] == before.workspaces@[k + 1],
        after.last_active_workspace != Some(before.workspaces@[i].id),
        after.dock@ == in_place_of(
            before.dock@,
            DockTab::Outer(Tab::Workspace(before.workspaces@[i].id)),
            DockTab::Outer(Tab::File(before.workspaces@[i].editor_id)),
        ),
{
    crate::session::lemma_workspace_at(before.workspaces@, before.workspaces@[i].id, i);
}

/// Dropping a mount takes that mount and no other; no file changes. One that is not
/// there changes nothing.
pub proof fn law_dropped_mount_is_gone(before: HxyApp, id: MountId, after: HxyApp, i: int, k: int)
    requires
        before.wf(),
        mount_dropped(before, id, after),
    ensures
        after.files == before.files && after.workspaces == before.workspaces && after.dock
            == before.dock,
        mount_at(before.mounts@, id) is None ==> after == before,
        mount_at(before.mounts@, id) == Some(i) ==> {
            &&& after.mounts@.len() + 1 == before.mounts@.len()
            &&& 0 <= k < i ==> after.mounts@[k] == before.mounts@[k]
            &&& i <= k < after.mounts@.len() ==> after.mounts@[k] == before.mounts@[k + 1]
        },
{
    crate::session::law_mount_of_id_is_found(before.mounts@, id);
}

} // verus!

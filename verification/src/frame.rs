//! What is settled once per frame, after the dock was drawn, and at the end of
//! a run.

use vstd::prelude::*;
use vstd::string::*;
#[allow(unused_imports)]
use crate::active::file_replaced;
use crate::closing::{collapse_workspace_to_file, drop_mount};
#[allow(unused_imports)]
use crate::closing::{collapsed_to, mount_dropped, redocked};
use crate::dock_ops::close_tab;
#[allow(unused_imports)]
use crate::dock_ops::{closed, some_content};
use crate::editor::{copy_bytes, HexEditor};
use crate::moves::all_tabs;
#[allow(unused_imports)]
use crate::moves::tab_list;
use crate::panes::track_content_leaf;
use crate::search::{apply_match_jump, push_file_matches, GlobalMatch};
#[allow(unused_imports)]
use crate::search::{
    all_matches, jumped, law_all_matches_listed, law_jump_shows_match, reads_as, search_view,
    shows_match, tagged,
};
use crate::session::{
    find_file,
    find_workspace,
    focus_file_tab,
    GlobalSearchState,
    HxyApp,
    OpenFile,
};
#[allow(unused_imports)]
use crate::session::{file_at, file_focused, lemma_file_at, workspace_at};
use crate::source::{find_tab_state, OpenTabState, TabSource};
#[allow(unused_imports)]
use crate::source::{sources_distinct, tab_index};
use crate::tabs::{DockTab, FileId, Tab, WorkspaceId};
use crate::tool_pane::only_editor_left;
#[allow(unused_imports)]
use crate::tool_pane::editor_item;
#[allow(unused_imports)]
use crate::watching::root_of;

verus! {

/// The remembered tabs with the caret and the scroll position of a file.
pub open spec fn tabs_synced(tabs: Seq<OpenTabState>, file: OpenFile) -> Seq<OpenTabState> {
    match file.source {
        Some(s) => match tab_index(tabs, s@) {
            Some(i) => tabs.update(
                i,
                OpenTabState {
                    selection: file.editor.selection,
                    scroll: file.scroll,
                    ..tabs[i]
                },
            ),
            None => tabs,
        },
        None => tabs,
    }
}

/// Remembers the caret and the scroll position of a file for the next start.
pub fn sync_tab_state(tabs: &mut Vec<OpenTabState>, file: &OpenFile)
    ensures
        final(tabs)@ == tabs_synced(old(tabs)@, *file),
        sources_distinct(old(tabs)@) ==> sources_distinct(final(tabs)@),
{
    if let Some(source) = &file.source {
        if let Some(i) = find_tab_state(tabs, source) {
            tabs[i].selection = file.editor.selection;
            tabs[i].scroll = file.scroll;
            assert(tabs@ =~= tabs_synced(old(tabs)@, *file));
            assert forall|a: int, b: int|
                0 <= a < b < tabs@.len() && sources_distinct(old(tabs)@) implies (
            #[trigger] tabs@[a]).source@ != (#[trigger] tabs@[b]).source@ by {
                assert(old(tabs)@[a].source@ != old(tabs)@[b].source@);
            }
        }
    }
}

/// What is remembered of a file is its own caret and scroll position.
pub proof fn law_tab_state_synced(tabs: Seq<OpenTabState>, file: OpenFile, i: int)
    requires
        file.source matches Some(s) && tab_index(tabs, s@) == Some(i),
        0 <= i < tabs.len(),
    ensures
        tabs_synced(tabs, file)[i].selection == file.editor.selection,
        tabs_synced(tabs, file)[i].scroll == file.scroll,
        tabs_synced(tabs, file)[i].as_workspace == tabs[i].as_workspace,
        tabs_synced(tabs, file).len() == tabs.len(),
{
}

/// Whether one editor is another in which a workspace is marked to become a
/// plain tab again, because only the mounted file is left in it.
pub open spec fn collapse_noted(before: HxyApp, id: WorkspaceId, after: HxyApp) -> bool {
    &&& after == (HxyApp { pending_collapse: after.pending_collapse, ..before })
    &&& after.pending_collapse@ == if (workspace_at(before.workspaces@, id) matches Some(i)
        && tab_list(before.workspaces@[i].dock@) == seq![editor_item()])
        && !before.pending_collapse@.contains(id) {
        before.pending_collapse@.push(id)
    } else {
        before.pending_collapse@
    }
}

fn is_listed(ids: &Vec<WorkspaceId>, id: WorkspaceId) -> (r: bool)
    ensures
        r == ids@.contains(id),
{
    let mut i: usize = 0;
    while i < ids.len()
        invariant
            i <= ids@.len(),
            forall|j: int| 0 <= j < i ==> ids@[j] != id,
        decreases ids.len() - i,
    {
        if ids[i] == id {
            return true;
        }
        i = i + 1;
    }
    false
}

/// Marks a workspace in which only the mounted file is left to become a plain
/// tab again.
pub fn note_collapse(app: &mut HxyApp, id: WorkspaceId)
    requires
        old(app).wf(),
    ensures
        final(app).wf(),
        collapse_noted(*old(app), id, *final(app)),
{
    if let Some(i) = find_workspace(&app.workspaces, id) {
        if only_editor_left(&app.workspaces[i].dock) && !is_listed(&app.pending_collapse, id) {
            app.pending_collapse.push(id);
        }
    }
}

/// Whether a chain of editors leads from one to another, each the one before
/// with one workspace less.
pub open spec fn collapses(states: Seq<HxyApp>, ids: Seq<WorkspaceId>) -> bool {
    &&& states.len() == ids.len() + 1
    &&& forall|k: int|
        0 <= k < ids.len() ==> #[trigger] collapsed_to(states[k], ids[k], states[k + 1])
}

fn collapse_pending(app: &mut HxyApp)
    requires
        old(app).wf(),
    ensures
        final(app).wf(),
        final(app).pending_collapse@.len() == 0,
        exists|states: Seq<HxyApp>| #[trigger]
            collapses(states, old(app).pending_collapse@) && states[0] == (HxyApp {
                pending_collapse: final(app).pending_collapse,
                ..*old(app)
            }) && states.last() == *final(app),
{
    let mut ids: Vec<WorkspaceId> = Vec::new();
    std::mem::swap(&mut app.pending_collapse, &mut ids);
    let ghost start = *app;
    let ghost mut states: Seq<HxyApp> = seq![*app];
    let mut i: usize = 0;
    assert(ids@.take(0) =~= seq![]);
    while i < ids.len()
        invariant
            i <= ids@.len(),
            app.wf(),
            app.pending_collapse == start.pending_collapse,
            collapses(states, ids@.take(i as int)),
            states[0] == start,
            states.last() == *app,
        decreases ids.len() - i,
    {
        let ghost before = *app;
        collapse_workspace_to_file(app, ids[i]);
        proof {
            let next = states.push(*app);
            let more = ids@.take(i as int + 1);
            assert forall|k: int| 0 <= k < more.len() implies #[trigger] collapsed_to(
                next[k],
                more[k],
                next[k + 1],
            ) by {
                if k < i {
                    assert(collapsed_to(states[k], ids@.take(i as int)[k], states[k + 1]));
                    assert(more[k] == ids@.take(i as int)[k]);
                } else {
                    assert(next[k] == before);
                }
            }
            states = next;
        }
        i = i + 1;
    }
    assert(ids@.take(ids@.len() as int) =~= ids@);
    assert(collapses(states, old(app).pending_collapse@));
}

/// The remembered pane of the editing area: the focused pane if it holds
/// content.
pub open spec fn leaf_tracked(before: HxyApp, after: HxyApp) -> bool {
    &&& after == (HxyApp { last_content_leaf: after.last_content_leaf, ..before })
    &&& match before.dock@.focused_leaf() {
        Some((s, n)) => if before.dock@.tree(s as int).leaf(n as int) matches Some(leaf)
            && some_content(leaf.tabs) {
            after.last_content_leaf matches Some(pos) && pos.surface == s && pos.node == n
        } else {
            after.last_content_leaf == before.last_content_leaf
        },
        None => after.last_content_leaf == before.last_content_leaf,
    }
}

/// Whether one editor is another after the mount whose tab was closed was
/// dropped.
pub open spec fn mount_settled(before: HxyApp, after: HxyApp) -> bool {
    match before.pending_close_mount {
        Some(id) => mount_dropped(HxyApp { pending_close_mount: None, ..before }, id, after),
        None => after == before,
    }
}

/// The editor after the question about an entry was taken over. It is dropped
/// where another question stands.
pub open spec fn entry_question_settled(app: HxyApp) -> HxyApp {
    HxyApp {
        pending_close_workspace_entry: None,
        pending_close_tab: match (app.pending_close_tab, app.pending_close_workspace_entry) {
            (None, Some(p)) => Some(p),
            (p, _) => p,
        },
        ..app
    }
}

/// Whether one editor is another after the workspaces that are marked became
/// plain tabs.
pub open spec fn workspaces_collapsed(before: HxyApp, after: HxyApp) -> bool {
    &&& after.pending_collapse@.len() == 0
    &&& exists|states: Seq<HxyApp>| #[trigger]
        collapses(states, before.pending_collapse@) && states[0] == (HxyApp {
            pending_collapse: after.pending_collapse,
            ..before
        }) && states.last() == after
}

/// Whether one editor is another with something to look at: the placeholder
/// page comes into a dock without tabs.
pub open spec fn never_blank(before: HxyApp, after: HxyApp) -> bool {
    redocked(
        before,
        if tab_list(before.dock@).len() == 0 {
            before.dock@.pushed(DockTab::Outer(Tab::Welcome))
        } else {
            before.dock@
        },
        after,
    )
}

/// Whether one editor is another after a frame was settled: the editing area is
/// remembered, what was closed is dropped, questions are taken over, workspaces
/// that are left alone become plain tabs, and the dock is never blank.
pub open spec fn frame_settled(
    before: HxyApp,
    noted: HxyApp,
    dropped: HxyApp,
    collapsed: HxyApp,
    after: HxyApp,
) -> bool {
    &&& leaf_tracked(before, noted)
    &&& mount_settled(noted, dropped)
    &&& workspaces_collapsed(entry_question_settled(dropped), collapsed)
    &&& never_blank(collapsed, after)
}

/// Settles a frame after the dock was drawn.
#[verifier::rlimit(40)]
pub fn after_dock(app: &mut HxyApp)
    requires
        old(app).wf(),
    ensures
        final(app).wf(),
        exists|noted: HxyApp, dropped: HxyApp, collapsed: HxyApp| #[trigger]
            frame_settled(*old(app), noted, dropped, collapsed, *final(app)),
{
    track_content_leaf(&app.dock, &mut app.last_content_leaf);
    let ghost noted = *app;
    if let Some(id) = app.pending_close_mount {
        app.pending_close_mount = None;
        drop_mount(app, id);
    }
    let ghost dropped = *app;
    if let Some(pending) = app.pending_close_workspace_entry.take() {
        if app.pending_close_tab.is_none() {
            app.pending_close_tab = Some(pending);
        }
    }
    assert(*app == entry_question_settled(dropped));
    collapse_pending(app);
    let ghost collapsed = *app;
    if all_tabs(&app.dock).len() == 0 {
        app.dock.push_to_focused_leaf(DockTab::Outer(Tab::Welcome));
    }
    assert(frame_settled(*old(app), noted, dropped, collapsed, *app));
}

/// Whether the wish to look for plugins anew was taken.
pub open spec fn rescan_taken(
    before: HxyApp,
    r: bool,
    after: HxyApp,
) -> bool {
    &&& r == before.plugin_rescan
    &&& after == (HxyApp { plugin_rescan: false, ..before })
}

/// Tells whether the plugins are to be read again, once.
pub fn take_rescan(app: &mut HxyApp) -> (r: bool)
    requires
        old(app).wf(),
    ensures
        final(app).wf(),
        rescan_taken(*old(app), r, *final(app)),
{
    let r = app.plugin_rescan;
    app.plugin_rescan = false;
    r
}

/// What comes from the panel of the search over all files. What is typed there
/// comes along as the bytes that it asks for.
pub enum GlobalSearchEvent {
    /// What is typed changed.
    Refresh { pattern: Option<Vec<u8>> },
    Run { pattern: Option<Vec<u8>> },
    Close,
    /// A match is to be shown.
    JumpTo(usize),
}

/// The matches in files, in order of the files.
pub open spec fn matches_in(files: Seq<OpenFile>, pattern: Seq<u8>) -> Seq<GlobalMatch>
    decreases files.len(),
{
    if files.len() == 0 {
        seq![]
    } else {
        matches_in(files.drop_last(), pattern) + tagged(
            files.last().id,
            all_matches(files.last().editor.bytes@, pattern),
        )
    }
}

/// Whether one search over all files is another with a pattern and matches; the
/// first match is chosen.
pub open spec fn search_ran(
    before: GlobalSearchState,
    pattern: Option<Vec<u8>>,
    matches: Seq<GlobalMatch>,
    after: GlobalSearchState,
) -> bool {
    &&& after.open == before.open
    &&& after.pattern == pattern
    &&& after.matches@ == matches
    &&& after.active_idx == if matches.len() == 0 {
        None
    } else {
        Some(0usize)
    }
}

/// Whether one editor is another in which a match was selected in its file and
/// the file came to the front.
pub open spec fn match_shown(
    before: HxyApp,
    m: GlobalMatch,
    len: nat,
    mid: HxyApp,
    after: HxyApp,
) -> bool {
    &&& match file_at(before.files@, m.file_id) {
        Some(i) => {
            let a = before.files@[i];
            let b = mid.files@[i];
            &&& file_replaced(before, i, mid)
            &&& b == (OpenFile { editor: b.editor, search: b.search, ..a })
            &&& b.editor == (HexEditor { selection: b.editor.selection, ..a.editor })
            &&& search_view(b.search, b.editor.selection) == jumped(
                search_view(a.search, a.editor.selection),
                m.offset,
                len,
            )
        },
        None => mid == before,
    }
    &&& file_focused(mid, m.file_id, after)
}

/// Whether one editor is another after something came from the panel of the
/// search over all files.
pub open spec fn global_event_applied(
    before: HxyApp,
    event: GlobalSearchEvent,
    mid: HxyApp,
    after: HxyApp,
) -> bool {
    match event {
        GlobalSearchEvent::Refresh { pattern } => mid == before && after == (HxyApp {
            global_search: after.global_search,
            ..before
        }) && search_ran(before.global_search, pattern, seq![], after.global_search),
        GlobalSearchEvent::Run { pattern } => mid == before && after == (HxyApp {
            global_search: after.global_search,
            ..before
        }) && search_ran(
            before.global_search,
            pattern,
            match pattern {
                Some(p) => matches_in(before.files@, p@),
                None => seq![],
            },
            after.global_search,
        ),
        GlobalSearchEvent::Close => mid == before && after == (HxyApp {
            dock: after.dock,
            global_search: GlobalSearchState { open: false, ..before.global_search },
            ..before
        }) && after.dock@ == closed(before.dock@, DockTab::Outer(Tab::SearchResults)),
        GlobalSearchEvent::JumpTo(idx) => match before.global_search.pattern {
            Some(p) => if idx < before.global_search.matches@.len() {
                match_shown(
                    HxyApp {
                        global_search: GlobalSearchState {
                            active_idx: Some(idx),
                            ..before.global_search
                        },
                        ..before
                    },
                    before.global_search.matches@[idx as int],
                    p@.len(),
                    mid,
                    after,
                )
            } else {
                mid == before && after == before
            },
            None => mid == before && after == before,
        },
    }
}

fn search_files(files: &Vec<OpenFile>, pattern: &Vec<u8>) -> (r: Vec<GlobalMatch>)
    ensures
        r@ == matches_in(files@, pattern@),
{
    let mut out: Vec<GlobalMatch> = Vec::new();
    let mut i: usize = 0;
    assert(files@.take(0) =~= seq![]);
    while i < files.len()
        invariant
            i <= files@.len(),
            out@ == matches_in(files@.take(i as int), pattern@),
        decreases files.len() - i,
    {
        assert(files@.take(i as int + 1).drop_last() =~= files@.take(i as int));
        push_file_matches(&mut out, files[i].id, &files[i].editor.bytes, pattern);
        i = i + 1;
    }
    assert(files@.take(files@.len() as int) =~= files@);
    out
}

fn show_match(app: &mut HxyApp, m: GlobalMatch, len: usize)
    requires
        old(app).wf(),
    ensures
        final(app).wf(),
        exists|mid: HxyApp| #[trigger] match_shown(*old(app), m, len as nat, mid, *final(app)),
{
    if let Some(i) = find_file(&app.files, m.file_id) {
        jump_in(&mut app.files[i], m.offset, len);
        assert(app.files@ =~= old(app).files@.update(i as int, app.files@[i as int]));
    }
    let ghost mid = *app;
    focus_file_tab(app, m.file_id);
    assert(match_shown(*old(app), m, len as nat, mid, *app));
}

fn jump_in(file: &mut OpenFile, offset: u64, len: usize)
    requires
        old(file).editor.wf(),
    ensures
        final(file).editor.wf(),
        *final(file) == (OpenFile {
            editor: final(file).editor,
            search: final(file).search,
            ..*old(file)
        }),
        final(file).editor == (HexEditor {
            selection: final(file).editor.selection,
            ..old(file).editor
        }),
        search_view(final(file).search, final(file).editor.selection) == jumped(
            search_view(old(file).search, old(file).editor.selection),
            offset,
            len as nat,
        ),
{
    apply_match_jump(&mut file.search, &mut file.editor.selection, offset, len);
}

/// Takes over what came from the panel of the search over all files.
#[verifier::rlimit(40)]
pub fn apply_global_search_event(app: &mut HxyApp, event: GlobalSearchEvent)
    requires
        old(app).wf(),
    ensures
        final(app).wf(),
        exists|mid: HxyApp| #[trigger]
            global_event_applied(*old(app), event, mid, *final(app)),
{
    let ghost all = event;
    match event {
        GlobalSearchEvent::Refresh { pattern } => {
            app.global_search.pattern = pattern;
            app.global_search.matches = Vec::new();
            app.global_search.active_idx = None;
            assert(app.global_search.matches@ =~= seq![]);
            assert(global_event_applied(*old(app), all, *old(app), *app));
        },
        GlobalSearchEvent::Run { pattern } => {
            let matches = match &pattern {
                Some(p) => search_files(&app.files, p),
                None => {
                    let none: Vec<GlobalMatch> = Vec::new();
                    assert(none@ =~= seq![]);
                    none
                },
            };
            app.global_search.pattern = pattern;
            app.global_search.active_idx = if matches.len() == 0 {
                None
            } else {
                Some(0)
            };
            app.global_search.matches = matches;
            assert(global_event_applied(*old(app), all, *old(app), *app));
        },
        GlobalSearchEvent::Close => {
            close_tab(&mut app.dock, DockTab::Outer(Tab::SearchResults));
            app.global_search.open = false;
            assert(global_event_applied(*old(app), all, *old(app), *app));
        },
        GlobalSearchEvent::JumpTo(idx) => {
            let len: usize = match &app.global_search.pattern {
                Some(p) => p.len(),
                None => {
                    assert(global_event_applied(*old(app), all, *old(app), *app));
                    return;
                },
            };
            if idx >= app.global_search.matches.len() {
                assert(global_event_applied(*old(app), all, *old(app), *app));
                return;
            }
            let m = app.global_search.matches[idx];
            app.global_search.active_idx = Some(idx);
            let ghost start = *app;
            show_match(app, m, len);
            proof {
                let mid = choose|mid: HxyApp| #[trigger]
                    match_shown(start, m, len as nat, mid, *app);
                assert(global_event_applied(*old(app), all, mid, *app));
            }
        },
    }
}

/// What is kept of a file at the end of a run.
pub enum ExitStep {
    /// Edits of an earlier run are not needed any more.
    ForgetEdits { path: String },
    /// The unsaved edits of a file are kept.
    KeepEdits { file_id: FileId, path: String },
    /// The contents of a scratch buffer are kept.
    KeepScratch { scratch: u64, bytes: Vec<u8> },
}

/// What is kept of a file on disk at the end of a run: its unsaved edits, and
/// none where it has none.
pub open spec fn edits_step(file: OpenFile, step: ExitStep) -> bool {
    match (root_of(file), step) {
        (Some(a), ExitStep::ForgetEdits { path }) => !file.editor.spec_is_dirty() && path@ == a,
        (Some(a), ExitStep::KeepEdits { file_id, path }) => file.editor.spec_is_dirty() && file_id
            == file.id && path@ == a,
        _ => false,
    }
}

/// Whether steps tell what is kept of the files on disk, in order.
pub open spec fn edits_kept(files: Seq<OpenFile>, steps: Seq<ExitStep>) -> bool
    decreases files.len(),
{
    if files.len() == 0 {
        steps.len() == 0
    } else if root_of(files.last()) is Some {
        steps.len() > 0 && edits_step(files.last(), steps.last()) && edits_kept(
            files.drop_last(),
            steps.drop_last(),
        )
    } else {
        edits_kept(files.drop_last(), steps)
    }
}

/// Whether a step keeps the contents of a scratch buffer.
pub open spec fn scratch_step(file: OpenFile, step: ExitStep) -> bool {
    match (file.source, step) {
        (
            Some(TabSource::Anonymous { id, .. }),
            ExitStep::KeepScratch { scratch, bytes },
        ) => scratch == id && bytes@ == file.editor.bytes@,
        _ => false,
    }
}

/// Whether a file is a scratch buffer.
pub open spec fn is_scratch_file(file: OpenFile) -> bool {
    file.source matches Some(TabSource::Anonymous { .. })
}

/// Whether steps keep the contents of all scratch buffers, in order.
pub open spec fn scratches_kept(files: Seq<OpenFile>, steps: Seq<ExitStep>) -> bool
    decreases files.len(),
{
    if files.len() == 0 {
        steps.len() == 0
    } else if is_scratch_file(files.last()) {
        steps.len() > 0 && scratch_step(files.last(), steps.last()) && scratches_kept(
            files.drop_last(),
            steps.drop_last(),
        )
    } else {
        scratches_kept(files.drop_last(), steps)
    }
}

pub(crate) fn root_path_of(file: &OpenFile) -> (r: Option<String>)
    ensures
        match (root_of(*file), r) {
            (Some(a), Some(b)) => a == b@,
            (None, None) => true,
            _ => false,
        },
{
    match &file.source {
        Some(s) => s.root_path(),
        None => None,
    }
}

/// Plans what is kept of the files on disk at the end of a run.
pub fn edits_to_keep(files: &Vec<OpenFile>) -> (r: Vec<ExitStep>)
    ensures
        edits_kept(files@, r@),
{
    let mut out: Vec<ExitStep> = Vec::new();
    let mut i: usize = 0;
    assert(files@.take(0) =~= seq![]);
    while i < files.len()
        invariant
            i <= files@.len(),
            edits_kept(files@.take(i as int), out@),
        decreases files.len() - i,
    {
        assert(files@.take(i as int + 1).drop_last() =~= files@.take(i as int));
        let ghost before = out@;
        if let Some(path) = root_path_of(&files[i]) {
            if files[i].editor.is_dirty() {
                out.push(ExitStep::KeepEdits { file_id: files[i].id, path });
            } else {
                out.push(ExitStep::ForgetEdits { path });
            }
            assert(out@.drop_last() =~= before);
        }
        i = i + 1;
    }
    assert(files@.take(files@.len() as int) =~= files@);
    out
}

/// Plans what is kept of the scratch buffers at the end of a run.
pub fn scratches_to_keep(files: &Vec<OpenFile>) -> (r: Vec<ExitStep>)
    ensures
        scratches_kept(files@, r@),
{
    let mut out: Vec<ExitStep> = Vec::new();
    let mut i: usize = 0;
    assert(files@.take(0) =~= seq![]);
    while i < files.len()
        invariant
            i <= files@.len(),
            scratches_kept(files@.take(i as int), out@),
        decreases files.len() - i,
    {
        assert(files@.take(i as int + 1).drop_last() =~= files@.take(i as int));
        let ghost before = out@;
        if let Some(TabSource::Anonymous { id, .. }) = &files[i].source {
            out.push(
                ExitStep::KeepScratch { scratch: *id, bytes: copy_bytes(&files[i].editor.bytes) },
            );
            assert(out@.drop_last() =~= before);
        }
        i = i + 1;
    }
    assert(files@.take(files@.len() as int) =~= files@);
    out
}

proof fn lemma_match_listed(files: Seq<OpenFile>, pattern: Seq<u8>, i: int, at: u64)
    requires
        0 <= i < files.len(),
        files[i].editor.bytes@.len() <= usize::MAX,
        reads_as(files[i].editor.bytes@, pattern, at as int),
    ensures
        exists|k: int|
            0 <= k < matches_in(files, pattern).len() && #[trigger] matches_in(files, pattern)[k]
                == (GlobalMatch { file_id: files[i].id, offset: at }),
    decreases files.len(),
{
    let head = matches_in(files.drop_last(), pattern);
    let own = all_matches(files.last().editor.bytes@, pattern);
    let all = matches_in(files, pattern);
    if i == files.len() - 1 {
        law_all_matches_listed(files.last().editor.bytes@, pattern);
        let k = choose|k: int| 0 <= k < own.len() && #[trigger] own[k] == at;
        assert(all[head.len() + k] == tagged(files.last().id, own)[k]);
    } else {
        lemma_match_listed(files.drop_last(), pattern, i, at);
        let k = choose|k: int|
            0 <= k < head.len() && #[trigger] head[k] == (GlobalMatch {
                file_id: files[i].id,
                offset: at,
            });
        assert(all[k] == head[k]);
    }
}

proof fn lemma_listed_match(files: Seq<OpenFile>, pattern: Seq<u8>, k: int)
    requires
        0 <= k < matches_in(files, pattern).len(),
        forall|i: int| 0 <= i < files.len() ==> (#[trigger] files[i]).editor.bytes@.len()
            <= usize::MAX,
    ensures
        exists|i: int|
            0 <= i < files.len() && (#[trigger] files[i]).id == matches_in(files, pattern)[k].file_id
                && reads_as(
                files[i].editor.bytes@,
                pattern,
                matches_in(files, pattern)[k].offset as int,
            ),
    decreases files.len(),
{
    if files.len() > 0 {
        let init = files.drop_last();
        let head = matches_in(init, pattern);
        let own = all_matches(files.last().editor.bytes@, pattern);
        let all = matches_in(files, pattern);
        if k < head.len() {
            assert forall|i: int| 0 <= i < init.len() implies (
            #[trigger] init[i]).editor.bytes@.len() <= usize::MAX by {
                assert(init[i] == files[i]);
            }
            lemma_listed_match(init, pattern, k);
            let i = choose|i: int|
                0 <= i < init.len() && (#[trigger] init[i]).id == head[k].file_id && reads_as(
                    init[i].editor.bytes@,
                    pattern,
                    head[k].offset as int,
                );
            assert(files[i] == init[i]);
            assert(all[k] == head[k]);
        } else {
            let last = files[files.len() - 1];
            assert(last.editor.bytes@.len() <= usize::MAX);
            law_all_matches_listed(last.editor.bytes@, pattern);
            assert(all[k] == tagged(last.id, own)[k - head.len()]);
            assert(reads_as(last.editor.bytes@, pattern, own[k - head.len()] as int));
        }
    }
}

proof fn lemma_matches_ordered(files: Seq<OpenFile>, pattern: Seq<u8>, a: int, b: int)
    requires
        0 <= a < b < matches_in(files, pattern).len(),
        forall|i: int| 0 <= i < files.len() ==> (#[trigger] files[i]).editor.bytes@.len()
            <= usize::MAX,
        forall|i: int, j: int|
            0 <= i < j < files.len() ==> (#[trigger] files[i]).id.0 < (#[trigger] files[j]).id.0,
    ensures
        ({
            let x = matches_in(files, pattern)[a];
            let y = matches_in(files, pattern)[b];
            x.file_id.0 < y.file_id.0 || (x.file_id == y.file_id && x.offset < y.offset)
        }),
    decreases files.len(),
{
    if files.len() > 0 {
        let init = files.drop_last();
        let head = matches_in(init, pattern);
        let last = files[files.len() - 1];
        let own = all_matches(last.editor.bytes@, pattern);
        let all = matches_in(files, pattern);
        assert forall|i: int| 0 <= i < init.len() implies (
        #[trigger] init[i]).editor.bytes@.len() <= usize::MAX by {
            assert(init[i] == files[i]);
        }
        assert forall|i: int, j: int| 0 <= i < j < init.len() implies (#[trigger] init[i]).id.0 < (
        #[trigger] init[j]).id.0 by {
            assert(init[i] == files[i] && init[j] == files[j]);
        }
        assert(last.editor.bytes@.len() <= usize::MAX);
        law_all_matches_listed(last.editor.bytes@, pattern);
        if b < head.len() {
            lemma_matches_ordered(init, pattern, a, b);
            assert(all[a] == head[a] && all[b] == head[b]);
        } else {
            assert(all[b] == tagged(last.id, own)[b - head.len()]);
            if a < head.len() {
                assert(all[a] == head[a]);
                lemma_listed_match(init, pattern, a);
                let i = choose|i: int|
                    0 <= i < init.len() && (#[trigger] init[i]).id == head[a].file_id && reads_as(
                        init[i].editor.bytes@,
                        pattern,
                        head[a].offset as int,
                    );
                assert(init[i] == files[i]);
                assert(files[i].id.0 < files[files.len() - 1].id.0);
            } else {
                assert(all[a] == tagged(last.id, own)[a - head.len()]);
                assert(own[a - head.len()] < own[b - head.len()]);
            }
        }
    }
}

/// A search over all files finds every place in every open file at which the bytes
/// read as the pattern, and nothing else, in the order of the files and of the
/// places. The first one is chosen, and nothing but the search changes.
pub proof fn law_search_covers_all_files(
    before: HxyApp,
    pattern: Vec<u8>,
    mid: HxyApp,
    after: HxyApp,
)
    requires
        before.wf(),
        global_event_applied(
            before,
            GlobalSearchEvent::Run { pattern: Some(pattern) },
            mid,
            after,
        ),
    ensures
        after.files == before.files,
        after.dock == before.dock,
        after.global_search.open == before.global_search.open,
        after.global_search.pattern == Some(pattern),
        ({
            let found = after.global_search.matches@;
            &&& forall|i: int, at: u64|
                0 <= i < before.files@.len() && #[trigger] reads_as(
                    before.files@[i].editor.bytes@,
                    pattern@,
                    at as int,
                ) ==> found.contains(GlobalMatch { file_id: before.files@[i].id, offset: at })
            &&& forall|k: int|
                0 <= k < found.len() ==> exists|i: int|
                    0 <= i < before.files@.len() && (#[trigger] before.files@[i]).id == (
                    #[trigger] found[k]).file_id && reads_as(
                        before.files@[i].editor.bytes@,
                        pattern@,
                        found[k].offset as int,
                    )
            &&& forall|a: int, b: int|
                0 <= a < b < found.len() ==> (#[trigger] found[a]).file_id.0 < (
                #[trigger] found[b]).file_id.0 || (found[a].file_id == found[b].file_id
                    && found[a].offset < found[b].offset)
            &&& after.global_search.active_idx == if found.len() == 0 {
                None
            } else {
                Some(0usize)
            }
        }),
{
    let found = after.global_search.matches@;
    let files = before.files@;
    assert forall|i: int| 0 <= i < files.len() implies (#[trigger] files[i]).editor.bytes@.len()
        <= usize::MAX by {
        assert(files[i].editor.bytes.len() <= usize::MAX);
    }
    assert forall|i: int, at: u64|
        0 <= i < files.len() && #[trigger] reads_as(
            files[i].editor.bytes@,
            pattern@,
            at as int,
        ) implies found.contains(GlobalMatch { file_id: files[i].id, offset: at }) by {
        lemma_match_listed(files, pattern@, i, at);
        let k = choose|k: int|
            0 <= k < found.len() && #[trigger] found[k] == (GlobalMatch {
                file_id: files[i].id,
                offset: at,
            });
        assert(found[k] == (GlobalMatch { file_id: files[i].id, offset: at }));
    }
    assert forall|k: int| 0 <= k < found.len() implies exists|i: int|
        0 <= i < files.len() && (#[trigger] files[i]).id == (#[trigger] found[k]).file_id
            && reads_as(files[i].editor.bytes@, pattern@, found[k].offset as int) by {
        lemma_listed_match(files, pattern@, k);
    }
    assert forall|a: int, b: int| 0 <= a < b < found.len() implies (#[trigger] found[a]).file_id.0
        < (#[trigger] found[b]).file_id.0 || (found[a].file_id == found[b].file_id
        && found[a].offset < found[b].offset) by {
        lemma_matches_ordered(files, pattern@, a, b);
    }
}

/// Picking a result of a search over all files selects it in its file, from its
/// first byte to its last, and changes no contents and no other file.
pub proof fn law_picked_result_is_shown(
    before: HxyApp,
    idx: usize,
    i: int,
    pattern: Vec<u8>,
    mid: HxyApp,
    after: HxyApp,
)
    requires
        before.wf(),
        before.global_search.pattern == Some(pattern),
        pattern@.len() > 0,
        idx < before.global_search.matches@.len(),
        before.global_search.matches@[idx as int].offset + pattern@.len() <= u64::MAX,
        0 <= i < before.files@.len(),
        before.files@[i].id == before.global_search.matches@[idx as int].file_id,
        global_event_applied(before, GlobalSearchEvent::JumpTo(idx), mid, after),
    ensures
        after.global_search.active_idx == Some(idx),
        after.global_search.matches == before.global_search.matches,
        after.global_search.pattern == before.global_search.pattern,
        after.files@.len() == before.files@.len(),
        forall|j: int|
            0 <= j < before.files@.len() && j != i ==> #[trigger] after.files@[j]
                == before.files@[j],
        after.files@[i].editor.bytes == before.files@[i].editor.bytes,
        after.files@[i].editor.undo_stack == before.files@[i].editor.undo_stack,
        after.files@[i].id == before.files@[i].id,
        shows_match(
            search_view(before.files@[i].search, before.files@[i].editor.selection),
            search_view(after.files@[i].search, after.files@[i].editor.selection),
            before.global_search.matches@[idx as int].offset as int,
            pattern@.len(),
        ),
{
    let m = before.global_search.matches@[idx as int];
    assert forall|j: int| 0 <= j < i implies (#[trigger] before.files@[j]).id != m.file_id by {
        assert(before.files@[j].id.0 < before.files@[i].id.0);
    }
    lemma_file_at(before.files@, m.file_id, i);
    law_jump_shows_match(
        search_view(before.files@[i].search, before.files@[i].editor.selection),
        m.offset,
        pattern@.len(),
    );
    assert(after.files == mid.files);
}

/// What is typed into the search over all files is searched for next; old results
/// are gone. Closing the search leaves its results alone.
pub proof fn law_search_panel_follows(
    before: HxyApp,
    pattern: Option<Vec<u8>>,
    typed: HxyApp,
    closed: HxyApp,
    mid: HxyApp,
)
    requires
        global_event_applied(before, GlobalSearchEvent::Refresh { pattern }, mid, typed),
        global_event_applied(before, GlobalSearchEvent::Close, mid, closed),
    ensures
        typed.global_search.pattern == pattern,
        typed.global_search.matches@.len() == 0,
        typed.global_search.active_idx is None,
        typed.files == before.files,
        typed.dock == before.dock,
        !closed.global_search.open,
        closed.global_search.pattern == before.global_search.pattern,
        closed.global_search.matches == before.global_search.matches,
        closed.files == before.files,
{
}

proof fn lemma_edits_kept(files: Seq<OpenFile>, steps: Seq<ExitStep>, i: int)
    requires
        edits_kept(files, steps),
        0 <= i < files.len(),
        root_of(files[i]) is Some,
    ensures
        exists|k: int| 0 <= k < steps.len() && edits_step(files[i], #[trigger] steps[k]),
    decreases files.len(),
{
    let last = files.len() - 1;
    if root_of(files.last()) is Some {
        if i == last {
            assert(edits_step(files[i], steps[steps.len() - 1]));
        } else {
            lemma_edits_kept(files.drop_last(), steps.drop_last(), i);
            let rest = steps.drop_last();
            let k = choose|k: int| 0 <= k < rest.len() && edits_step(files[i], #[trigger] rest[k]);
            assert(steps[k] == rest[k]);
        }
    } else {
        lemma_edits_kept(files.drop_last(), steps, i);
    }
}

/// At the end of a run the unsaved edits of every file on disk are kept, under the
/// path that it lies at, and those of a file without any are forgotten.
pub proof fn law_unsaved_edits_are_kept(
    files: Seq<OpenFile>,
    steps: Seq<ExitStep>,
    i: int,
    at: String,
)
    requires
        edits_kept(files, steps),
        0 <= i < files.len(),
        files[i].source == Some(TabSource::Filesystem(at)),
    ensures
        exists|k: int|
            0 <= k < steps.len() && if files[i].editor.undo_stack@.len() > 0
                || files[i].editor.restored@.len() > 0 {
                (#[trigger] steps[k]) matches ExitStep::KeepEdits { file_id, path } && file_id
                    == files[i].id && path@ == at@
            } else {
                steps[k] matches ExitStep::ForgetEdits { path } && path@ == at@
            },
{
    assert(root_of(files[i]) == Some(at@));
    lemma_edits_kept(files, steps, i);
    let k = choose|k: int| 0 <= k < steps.len() && edits_step(files[i], #[trigger] steps[k]);
    assert(edits_step(files[i], steps[k]));
    let _ = steps[k];
}

/// At the end of a run the contents of every scratch file are kept, under its
/// number.
pub proof fn law_scratch_contents_are_kept(
    files: Seq<OpenFile>,
    steps: Seq<ExitStep>,
    i: int,
    id: u64,
    title: String,
)
    requires
        scratches_kept(files, steps),
        0 <= i < files.len(),
        files[i].source == Some(TabSource::Anonymous { id, title }),
    ensures
        exists|k: int|
            0 <= k < steps.len() && ((#[trigger] steps[k]) matches ExitStep::KeepScratch {
                scratch,
                bytes,
            } && scratch == id && bytes@ == files[i].editor.bytes@),
    decreases files.len(),
{
    if is_scratch_file(files.last()) {
        if i == files.len() - 1 {
            let k = steps.len() - 1;
            assert(steps[k] matches ExitStep::KeepScratch { scratch, bytes } && scratch == id
                && bytes@ == files[i].editor.bytes@);
        } else {
            let rest = steps.drop_last();
            law_scratch_contents_are_kept(files.drop_last(), rest, i, id, title);
            let k = choose|k: int|
                0 <= k < rest.len() && ((#[trigger] rest[k]) matches ExitStep::KeepScratch {
                    scratch,
                    bytes,
                } && scratch == id && bytes@ == files[i].editor.bytes@);
            assert(steps[k] == rest[k]);
        }
    } else {
        law_scratch_contents_are_kept(files.drop_last(), steps, i, id, title);
    }
}

/// A workspace is to become a file again once nothing but the file's own tab is left in
/// it, and is noted only once.
pub proof fn law_emptied_workspace_is_noted(before: HxyApp, after: HxyApp, i: int)
    requires
        before.wf(),
        0 <= i < before.workspaces@.len(),
        collapse_noted(before, before.workspaces@[i].id, after),
    ensures
        ({
            let id = before.workspaces@[i].id;
            let only_editor = tab_list(before.workspaces@[i].dock@) == seq![
                DockTab::Inner(crate::tabs::WorkspaceTab::Editor),
            ];
            &&& only_editor ==> after.pending_collapse@.contains(id)
            &&& !only_editor || before.pending_collapse@.contains(id) ==> after.pending_collapse@
                == before.pending_collapse@
            &&& only_editor && !before.pending_collapse@.contains(id)
                ==> after.pending_collapse@.len() == before.pending_collapse@.len() + 1
        }),
        after.files == before.files && after.workspaces == before.workspaces && after.dock
            == before.dock,
{
    crate::session::lemma_workspace_at(before.workspaces@, before.workspaces@[i].id, i);
    let id = before.workspaces@[i].id;
    if after.pending_collapse@ == before.pending_collapse@.push(id) {
        assert(after.pending_collapse@[before.pending_collapse@.len() as int] == id);
    }
}

/// At the end of a frame no mount is left to drop and no workspace left to collapse, the
/// dock has a tab, a question about an entry is asked unless another one is, and the
/// pane with content that has the focus is remembered.
pub proof fn law_frame_leaves_nothing_pending(
    before: HxyApp,
    noted: HxyApp,
    dropped: HxyApp,
    collapsed: HxyApp,
    after: HxyApp,
    at: crate::dock::NodePos,
)
    requires
        frame_settled(before, noted, dropped, collapsed, after),
    ensures
        after.pending_collapse@.len() == 0,
        before.pending_close_mount is None ==> dropped.mounts == before.mounts,
        dropped.pending_close_mount is None,
        before.pending_close_tab is None ==> entry_question_settled(dropped).pending_close_tab
            == before.pending_close_workspace_entry,
        before.pending_close_tab is Some ==> entry_question_settled(dropped).pending_close_tab
            == before.pending_close_tab,
        entry_question_settled(dropped).pending_close_workspace_entry is None,
        tab_list(collapsed.dock@).len() > 0 ==> after.dock@ == collapsed.dock@,
        tab_list(collapsed.dock@).len() == 0 ==> after.dock@ == collapsed.dock@.pushed(
            DockTab::Outer(Tab::Welcome),
        ),
        after.files == collapsed.files,
        before.dock@.focused_leaf() == Some((at.surface as nat, at.node as nat)) ==> (
        before.dock@.tree(at.surface as int).leaf(at.node as int) matches Some(leaf) ==> (
        some_content(leaf.tabs) ==> noted.last_content_leaf == Some(at))),
{
}

/// The wish to look for plugins anew is told once.
pub proof fn law_rescan_is_told_once(before: HxyApp, first: bool, mid: HxyApp, second: bool, after: HxyApp)
    requires
        rescan_taken(before, first, mid),
        rescan_taken(mid, second, after),
    ensures
        first == before.plugin_rescan,
        !second,
        after.files == before.files && after.dock == before.dock,
{
}

} // verus!

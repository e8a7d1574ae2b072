//! The state of a running editor: open files, workspaces, mounts and docks,
//! and which of them commands act on.

use vstd::prelude::*;
use vstd::string::*;
use crate::commands::SuggestedTemplate;
use crate::console::ConsoleEntry;
#[allow(unused_imports)]
use crate::console::{times_shown, CONSOLE_CAPACITY};
use crate::dock::{Dock, NodePos};
#[allow(unused_imports)]
use crate::dock::{DockView, LeafView, NodeView, TreeView};
use crate::dock_ops::focus_tab;
#[allow(unused_imports)]
use crate::dock_ops::{law_shown_tab_is_in_front, shown};
use crate::editor::HexEditor;
use crate::moves::all_tabs;
#[allow(unused_imports)]
use crate::moves::tab_list;
use crate::palette::PaletteState;
use crate::panes::active_focused;
#[allow(unused_imports)]
use crate::panes::focused_tab;
use crate::search::{GlobalMatch, SearchState};
use crate::settings::AppSettings;
use crate::source::{OpenTabState, TabSource};
#[allow(unused_imports)]
use crate::source::{sources_distinct, SourceView};
use crate::tabs::{DockTab, FileId, MountId, Tab, TabFocus, WorkspaceId, WorkspaceTab};
use crate::tool_pane::inner_active_file;
#[allow(unused_imports)]
use crate::tool_pane::inner_active;

verus! {

/// How far the bytes of a file are there.
pub enum LoadStatus {
    Ready,
    /// They are being fetched.
    Loading,
    /// They could not be fetched.
    Failed(String),
}

/// An open file.
pub struct OpenFile {
    pub id: FileId,
    pub display_name: String,
    /// Where its bytes come from; nothing for bytes from memory.
    pub source: Option<TabSource>,
    pub editor: HexEditor,
    /// Scroll position, in whatever unit the view measures it.
    pub scroll: u64,
    /// Name of what can mount it as an archive.
    pub handler: Option<String>,
    pub suggested_template: Option<SuggestedTemplate>,
    /// Whether it must stay read-only because its archive cannot be written.
    pub locked: bool,
    pub columns_override: Option<u16>,
    /// Address of its first byte.
    pub virtual_base: Option<u64>,
    pub visualizer_open: bool,
    /// Whether the user closed its visualizer, so that it does not come up by
    /// itself.
    pub visualizer_dismissed: bool,
    pub load: LoadStatus,
    pub search: SearchState,
}

/// A file that is mounted, with the tabs opened from it.
pub struct Workspace {
    pub id: WorkspaceId,
    /// The file that is mounted.
    pub editor_id: FileId,
    pub dock: Dock,
    /// Whether entries can be written back.
    pub writable: bool,
}

/// Whether a plugin's mount can be used.
pub enum MountStatus {
    Ready { writable: bool },
    Failed { message: String, retry_label: Option<String> },
}

/// A mount that a plugin made.
pub struct MountedPlugin {
    pub id: MountId,
    pub display_name: String,
    pub plugin_name: String,
    pub token: String,
    pub status: MountStatus,
}

/// A tab that the user asked to close although it has unsaved edits.
pub struct PendingCloseTab {
    pub file_id: FileId,
    pub display_name: String,
}

/// A file that the user asked to open although it is open.
pub struct PendingDuplicate {
    pub display_name: String,
    pub path: String,
    pub existing: FileId,
}

/// A tab whose entry is gone from its archive.
pub struct PendingOrphanEntry {
    pub file_id: FileId,
    pub display_name: String,
    pub entry_path: String,
}

/// What is done with the pane that is pointed out.
#[derive(Clone, Copy, Debug, PartialEq, Eq, Structural)]
pub enum PaneOp {
    MoveTab,
    Merge,
    Focus,
}

/// A pane that is to be pointed out.
#[derive(Clone, Copy, Debug, PartialEq, Eq, Structural)]
pub struct PendingPanePick {
    pub op: PaneOp,
    /// The pane that the operation starts from.
    pub source: Option<NodePos>,
}

/// A search over all open files.
pub struct GlobalSearchState {
    pub open: bool,
    pub pattern: Option<Vec<u8>>,
    pub matches: Vec<GlobalMatch>,
    pub active_idx: Option<usize>,
}

/// The running editor.
pub struct HxyApp {
    pub dock: Dock,
    pub files: Vec<OpenFile>,
    pub workspaces: Vec<Workspace>,
    pub mounts: Vec<MountedPlugin>,
    pub next_file_id: u64,
    pub next_workspace_id: u64,
    pub next_mount_id: u64,
    pub next_compare_id: u64,
    /// The tabs to open again at the next start.
    pub open_tabs: Vec<OpenTabState>,
    pub settings: AppSettings,
    pub console: Vec<ConsoleEntry>,
    pub palette: PaletteState,
    pub tab_focus: TabFocus,
    /// The file that was last focused.
    pub last_active_file: Option<FileId>,
    /// The workspace that was last focused.
    pub last_active_workspace: Option<WorkspaceId>,
    /// The pane of the editing area that was last focused.
    pub last_content_leaf: Option<NodePos>,
    /// Tool tabs that are hidden.
    pub hidden_tool_tabs: Vec<DockTab>,
    pub global_search: GlobalSearchState,
    pub pending_close_tab: Option<PendingCloseTab>,
    pub pending_close_workspace_entry: Option<PendingCloseTab>,
    /// Workspaces in which only the mounted file is left.
    pub pending_collapse: Vec<WorkspaceId>,
    pub pending_close_mount: Option<MountId>,
    pub pending_duplicate: Option<PendingDuplicate>,
    pub pending_orphans: Vec<PendingOrphanEntry>,
    pub pending_pane_pick: Option<PendingPanePick>,
    /// Whether the plugins are to be read again.
    pub plugin_rescan: bool,
    /// Whether to ask for the download of patterns.
    pub patterns_prompt: bool,
}

/// Files in order of their ids, each below a bound.
pub open spec fn files_ordered(files: Seq<OpenFile>, bound: u64) -> bool {
    &&& forall|i: int| 0 <= i < files.len() ==> (#[trigger] files[i]).id.0 < bound
    &&& forall|i: int, j: int|
        0 <= i < j < files.len() ==> (#[trigger] files[i]).id.0 < (#[trigger] files[j]).id.0
}

/// Every editor's history fits its bytes.
pub open spec fn editors_wf(files: Seq<OpenFile>) -> bool {
    forall|i: int| 0 <= i < files.len() ==> (#[trigger] files[i]).editor.wf()
}

/// Workspaces in order of their ids, each below a bound and with a well-formed
/// dock.
pub open spec fn workspaces_ordered(list: Seq<Workspace>, bound: u64) -> bool {
    &&& forall|i: int|
        0 <= i < list.len() ==> (#[trigger] list[i]).id.0 < bound && list[i].dock.wf()
    &&& forall|i: int, j: int|
        0 <= i < j < list.len() ==> (#[trigger] list[i]).id.0 < (#[trigger] list[j]).id.0
}

/// Mounts in order of their ids, each below a bound.
pub open spec fn mounts_ordered(list: Seq<MountedPlugin>, bound: u64) -> bool {
    &&& forall|i: int| 0 <= i < list.len() ==> (#[trigger] list[i]).id.0 < bound
    &&& forall|i: int, j: int|
        0 <= i < j < list.len() ==> (#[trigger] list[i]).id.0 < (#[trigger] list[j]).id.0
}

impl HxyApp {
    /// The parts fit together: ids are unique and no fresh id is in use, docks
    /// are well formed, no source is remembered twice, the console is within
    /// its bounds.
    pub open spec fn wf(&self) -> bool {
        &&& self.dock.wf()
        &&& files_ordered(self.files@, self.next_file_id)
        &&& editors_wf(self.files@)
        &&& workspaces_ordered(self.workspaces@, self.next_workspace_id)
        &&& mounts_ordered(self.mounts@, self.next_mount_id)
        &&& sources_distinct(self.open_tabs@)
        &&& self.settings.wf()
        &&& self.console@.len() <= CONSOLE_CAPACITY
        &&& times_shown(self.console@)
    }

    /// Starts with nothing open but some tabs.
    fn fresh(
        tabs: Vec<DockTab>,
        settings: AppSettings,
        open_tabs: Vec<OpenTabState>,
        patterns_prompt: bool,
    ) -> (r: HxyApp)
        requires
            settings.wf(),
            sources_distinct(open_tabs@),
        ensures
            r.wf(),
            starts_with(r, tabs@, settings, open_tabs, patterns_prompt),
    {
        HxyApp {
            dock: Dock::new(tabs),
            files: Vec::new(),
            workspaces: Vec::new(),
            mounts: Vec::new(),
            next_file_id: 1,
            next_workspace_id: 1,
            next_mount_id: 1,
            next_compare_id: 1,
            open_tabs,
            settings,
            console: Vec::new(),
            palette: PaletteState::new(),
            tab_focus: TabFocus::Outer,
            last_active_file: None,
            last_active_workspace: None,
            last_content_leaf: None,
            hidden_tool_tabs: Vec::new(),
            global_search: GlobalSearchState {
                open: false,
                pattern: None,
                matches: Vec::new(),
                active_idx: None,
            },
            pending_close_tab: None,
            pending_close_workspace_entry: None,
            pending_collapse: Vec::new(),
            pending_close_mount: None,
            pending_duplicate: None,
            pending_orphans: Vec::new(),
            pending_pane_pick: None,
            plugin_rescan: false,
            patterns_prompt,
        }
    }

    /// Starts with the welcome page and the settings, and nothing open. Asks for
    /// the download of patterns where they are neither there nor declined.
    pub fn new(
        settings: AppSettings,
        open_tabs: Vec<OpenTabState>,
        patterns_installed: bool,
        patterns_declined: bool,
    ) -> (r: HxyApp)
        requires
            settings.wf(),
            sources_distinct(open_tabs@),
        ensures
            r.wf(),
            starts_with(
                r,
                seq![DockTab::Outer(Tab::Welcome), DockTab::Outer(Tab::Settings)],
                settings,
                open_tabs,
                !patterns_installed && !patterns_declined,
            ),
    {
        let mut tabs: Vec<DockTab> = Vec::new();
        tabs.push(DockTab::Outer(Tab::Welcome));
        tabs.push(DockTab::Outer(Tab::Settings));
        assert(tabs@ =~= seq![DockTab::Outer(Tab::Welcome), DockTab::Outer(Tab::Settings)]);
        HxyApp::fresh(tabs, settings, open_tabs, !patterns_installed && !patterns_declined)
    }

    /// Starts in the browser, with the welcome page alone.
    pub fn new_wasm(settings: AppSettings) -> (r: HxyApp)
        requires
            settings.wf(),
        ensures
            r.wf(),
            exists|open_tabs: Vec<OpenTabState>| #[trigger]
                starts_with(r, seq![DockTab::Outer(Tab::Welcome)], settings, open_tabs, false)
                    && open_tabs@.len() == 0,
    {
        let mut tabs: Vec<DockTab> = Vec::new();
        tabs.push(DockTab::Outer(Tab::Welcome));
        assert(tabs@ =~= seq![DockTab::Outer(Tab::Welcome)]);
        let open_tabs: Vec<OpenTabState> = Vec::new();
        let ghost none = open_tabs;
        let r = HxyApp::fresh(tabs, settings, open_tabs, false);
        assert(starts_with(r, seq![DockTab::Outer(Tab::Welcome)], settings, none, false));
        r
    }
}

/// Whether nothing is open but some tabs in one pane, the first in front.
pub open spec fn starts_with(
    r: HxyApp,
    tabs: Seq<DockTab>,
    settings: AppSettings,
    open_tabs: Vec<OpenTabState>,
    patterns_prompt: bool,
) -> bool {
    &&& r.dock@.surfaces == seq![
        Some(
            TreeView {
                nodes: seq![NodeView::Leaf(LeafView { tabs, active: 0 })],
                focused: None,
            },
        ),
    ]
    &&& r.dock@.focus is None
    &&& r.files@.len() == 0
    &&& r.workspaces@.len() == 0
    &&& r.mounts@.len() == 0
    &&& r.next_file_id == 1
    &&& r.next_workspace_id == 1
    &&& r.next_mount_id == 1
    &&& r.next_compare_id == 1
    &&& r.settings == settings
    &&& r.open_tabs == open_tabs
    &&& r.console@.len() == 0
    &&& !r.palette.open
    &&& r.palette.mode is Main
    &&& r.palette.compare_first is None
    &&& r.tab_focus is Outer
    &&& r.last_active_file is None
    &&& r.last_active_workspace is None
    &&& r.last_content_leaf is None
    &&& r.hidden_tool_tabs@.len() == 0
    &&& !r.global_search.open
    &&& r.global_search.pattern is None
    &&& r.global_search.matches@.len() == 0
    &&& r.global_search.active_idx is None
    &&& r.pending_close_tab is None
    &&& r.pending_close_workspace_entry is None
    &&& r.pending_collapse@.len() == 0
    &&& r.pending_close_mount is None
    &&& r.pending_duplicate is None
    &&& r.pending_orphans@.len() == 0
    &&& r.pending_pane_pick is None
    &&& !r.plugin_rescan
    &&& r.patterns_prompt == patterns_prompt
}

/// Place of the first file with an id.
pub open spec fn file_at(files: Seq<OpenFile>, id: FileId) -> Option<int>
    decreases files.len(),
{
    if files.len() == 0 {
        None
    } else {
        match file_at(files.drop_last(), id) {
            Some(i) => Some(i),
            None => if files.last().id == id {
                Some(files.len() - 1)
            } else {
                None
            },
        }
    }
}

pub proof fn lemma_file_at(files: Seq<OpenFile>, id: FileId, i: int)
    requires
        0 <= i < files.len(),
        files[i].id == id,
        forall|j: int| 0 <= j < i ==> (#[trigger] files[j]).id != id,
    ensures
        file_at(files, id) == Some(i),
    decreases files.len(),
{
    if i < files.len() - 1 {
        lemma_file_at(files.drop_last(), id, i);
    } else {
        lemma_no_file_at(files.drop_last(), id);
    }
}

pub proof fn lemma_no_file_at(files: Seq<OpenFile>, id: FileId)
    requires
        forall|j: int| 0 <= j < files.len() ==> (#[trigger] files[j]).id != id,
    ensures
        file_at(files, id) is None,
    decreases files.len(),
{
    if files.len() > 0 {
        lemma_no_file_at(files.drop_last(), id);
    }
}

/// Place of the file with an id.
pub fn find_file(files: &Vec<OpenFile>, id: FileId) -> (r: Option<usize>)
    ensures
        match (file_at(files@, id), r) {
            (Some(a), Some(b)) => a == b && b < files@.len() && files@[b as int].id == id,
            (None, None) => forall|j: int| 0 <= j < files@.len() ==> (#[trigger] files@[j]).id != id,
            _ => false,
        },
{
    let mut i: usize = 0;
    while i < files.len()
        invariant
            i <= files@.len(),
            forall|j: int| 0 <= j < i ==> (#[trigger] files@[j]).id != id,
        decreases files.len() - i,
    {
        if files[i].id == id {
            proof {
                lemma_file_at(files@, id, i as int);
            }
            return Some(i);
        }
        i = i + 1;
    }
    proof {
        lemma_no_file_at(files@, id);
    }
    None
}

/// Place of the first workspace with an id.
pub open spec fn workspace_at(list: Seq<Workspace>, id: WorkspaceId) -> Option<int>
    decreases list.len(),
{
    if list.len() == 0 {
        None
    } else {
        match workspace_at(list.drop_last(), id) {
            Some(i) => Some(i),
            None => if list.last().id == id {
                Some(list.len() - 1)
            } else {
                None
            },
        }
    }
}

pub proof fn lemma_workspace_at(list: Seq<Workspace>, id: WorkspaceId, i: int)
    requires
        0 <= i < list.len(),
        list[i].id == id,
        forall|j: int| 0 <= j < i ==> (#[trigger] list[j]).id != id,
    ensures
        workspace_at(list, id) == Some(i),
    decreases list.len(),
{
    if i < list.len() - 1 {
        lemma_workspace_at(list.drop_last(), id, i);
    } else {
        lemma_no_workspace_at(list.drop_last(), id);
    }
}

pub proof fn lemma_no_workspace_at(list: Seq<Workspace>, id: WorkspaceId)
    requires
        forall|j: int| 0 <= j < list.len() ==> (#[trigger] list[j]).id != id,
    ensures
        workspace_at(list, id) is None,
    decreases list.len(),
{
    if list.len() > 0 {
        lemma_no_workspace_at(list.drop_last(), id);
    }
}

/// Place of the workspace with an id.
pub fn find_workspace(list: &Vec<Workspace>, id: WorkspaceId) -> (r: Option<usize>)
    ensures
        match (workspace_at(list@, id), r) {
            (Some(a), Some(b)) => a == b && b < list@.len() && list@[b as int].id == id,
            (None, None) => forall|j: int| 0 <= j < list@.len() ==> (#[trigger] list@[j]).id != id,
            _ => false,
        },
{
    let mut i: usize = 0;
    while i < list.len()
        invariant
            i <= list@.len(),
            forall|j: int| 0 <= j < i ==> (#[trigger] list@[j]).id != id,
        decreases list.len() - i,
    {
        if list[i].id == id {
            proof {
                lemma_workspace_at(list@, id, i as int);
            }
            return Some(i);
        }
        i = i + 1;
    }
    proof {
        lemma_no_workspace_at(list@, id);
    }
    None
}

/// Place of the first mount with an id.
pub open spec fn mount_at(list: Seq<MountedPlugin>, id: MountId) -> Option<int>
    decreases list.len(),
{
    if list.len() == 0 {
        None
    } else {
        match mount_at(list.drop_last(), id) {
            Some(i) => Some(i),
            None => if list.last().id == id {
                Some(list.len() - 1)
            } else {
                None
            },
        }
    }
}

pub proof fn lemma_mount_at(list: Seq<MountedPlugin>, id: MountId, i: int)
    requires
        0 <= i < list.len(),
        list[i].id == id,
        forall|j: int| 0 <= j < i ==> (#[trigger] list[j]).id != id,
    ensures
        mount_at(list, id) == Some(i),
    decreases list.len(),
{
    if i < list.len() - 1 {
        lemma_mount_at(list.drop_last(), id, i);
    } else {
        lemma_no_mount_at(list.drop_last(), id);
    }
}

pub proof fn lemma_no_mount_at(list: Seq<MountedPlugin>, id: MountId)
    requires
        forall|j: int| 0 <= j < list.len() ==> (#[trigger] list[j]).id != id,
    ensures
        mount_at(list, id) is None,
    decreases list.len(),
{
    if list.len() > 0 {
        lemma_no_mount_at(list.drop_last(), id);
    }
}

/// Place of the mount with an id.
pub fn find_mount(list: &Vec<MountedPlugin>, id: MountId) -> (r: Option<usize>)
    ensures
        match (mount_at(list@, id), r) {
            (Some(a), Some(b)) => a == b && b < list@.len() && list@[b as int].id == id,
            (None, None) => forall|j: int| 0 <= j < list@.len() ==> (#[trigger] list@[j]).id != id,
            _ => false,
        },
{
    let mut i: usize = 0;
    while i < list.len()
        invariant
            i <= list@.len(),
            forall|j: int| 0 <= j < i ==> (#[trigger] list@[j]).id != id,
        decreases list.len() - i,
    {
        if list[i].id == id {
            proof {
                lemma_mount_at(list@, id, i as int);
            }
            return Some(i);
        }
        i = i + 1;
    }
    proof {
        lemma_no_mount_at(list@, id);
    }
    None
}

/// Whether a file's bytes come from a source.
pub open spec fn has_source(file: OpenFile, source: SourceView) -> bool {
    file.source matches Some(s) && s@ == source
}

/// Place of the first file with a source.
pub open spec fn file_with_source(files: Seq<OpenFile>, source: SourceView) -> Option<int>
    decreases files.len(),
{
    if files.len() == 0 {
        None
    } else {
        match file_with_source(files.drop_last(), source) {
            Some(i) => Some(i),
            None => if has_source(files.last(), source) {
                Some(files.len() - 1)
            } else {
                None
            },
        }
    }
}

proof fn lemma_file_with_source(files: Seq<OpenFile>, source: SourceView, i: int)
    requires
        0 <= i < files.len(),
        has_source(files[i], source),
        forall|j: int| 0 <= j < i ==> !has_source(#[trigger] files[j], source),
    ensures
        file_with_source(files, source) == Some(i),
    decreases files.len(),
{
    if i < files.len() - 1 {
        lemma_file_with_source(files.drop_last(), source, i);
    } else {
        lemma_no_file_with_source(files.drop_last(), source);
    }
}

proof fn lemma_no_file_with_source(files: Seq<OpenFile>, source: SourceView)
    requires
        forall|j: int| 0 <= j < files.len() ==> !has_source(#[trigger] files[j], source),
    ensures
        file_with_source(files, source) is None,
    decreases files.len(),
{
    if files.len() > 0 {
        lemma_no_file_with_source(files.drop_last(), source);
    }
}

/// Place of the first file with a source.
pub fn find_file_by_source(files: &Vec<OpenFile>, source: &TabSource) -> (r: Option<usize>)
    ensures
        match (file_with_source(files@, source@), r) {
            (Some(a), Some(b)) => a == b && b < files@.len() && has_source(
                files@[b as int],
                source@,
            ),
            (None, None) => forall|j: int|
                0 <= j < files@.len() ==> !has_source(#[trigger] files@[j], source@),
            _ => false,
        },
{
    let mut i: usize = 0;
    while i < files.len()
        invariant
            i <= files@.len(),
            forall|j: int| 0 <= j < i ==> !has_source(#[trigger] files@[j], source@),
        decreases files.len() - i,
    {
        if let Some(s) = &files[i].source {
            if s.same(source) {
                proof {
                    lemma_file_with_source(files@, source@, i as int);
                }
                return Some(i);
            }
        }
        i = i + 1;
    }
    proof {
        lemma_no_file_with_source(files@, source@);
    }
    None
}

/// Place of the first workspace that mounts a file.
pub open spec fn workspace_of_file(list: Seq<Workspace>, id: FileId) -> Option<int>
    decreases list.len(),
{
    if list.len() == 0 {
        None
    } else {
        match workspace_of_file(list.drop_last(), id) {
            Some(i) => Some(i),
            None => if list.last().editor_id == id {
                Some(list.len() - 1)
            } else {
                None
            },
        }
    }
}

proof fn lemma_workspace_of_file(list: Seq<Workspace>, id: FileId, i: int)
    requires
        0 <= i < list.len(),
        list[i].editor_id == id,
        forall|j: int| 0 <= j < i ==> (#[trigger] list[j]).editor_id != id,
    ensures
        workspace_of_file(list, id) == Some(i),
    decreases list.len(),
{
    if i < list.len() - 1 {
        lemma_workspace_of_file(list.drop_last(), id, i);
    } else {
        lemma_no_workspace_of_file(list.drop_last(), id);
    }
}

proof fn lemma_no_workspace_of_file(list: Seq<Workspace>, id: FileId)
    requires
        forall|j: int| 0 <= j < list.len() ==> (#[trigger] list[j]).editor_id != id,
    ensures
        workspace_of_file(list, id) is None,
    decreases list.len(),
{
    if list.len() > 0 {
        lemma_no_workspace_of_file(list.drop_last(), id);
    }
}

/// Place of the first workspace that mounts a file.
pub fn find_workspace_of_file(list: &Vec<Workspace>, id: FileId) -> (r: Option<usize>)
    ensures
        match (workspace_of_file(list@, id), r) {
            (Some(a), Some(b)) => a == b && b < list@.len() && list@[b as int].editor_id == id,
            (None, None) => forall|j: int|
                0 <= j < list@.len() ==> (#[trigger] list@[j]).editor_id != id,
            _ => false,
        },
{
    let mut i: usize = 0;
    while i < list.len()
        invariant
            i <= list@.len(),
            forall|j: int| 0 <= j < i ==> (#[trigger] list@[j]).editor_id != id,
        decreases list.len() - i,
    {
        if list[i].editor_id == id {
            proof {
                lemma_workspace_of_file(list@, id, i as int);
            }
            return Some(i);
        }
        i = i + 1;
    }
    proof {
        lemma_no_workspace_of_file(list@, id);
    }
    None
}

/// The workspace that mounts the file with a source.
pub open spec fn workspace_for(app: HxyApp, source: SourceView) -> Option<int> {
    match file_with_source(app.files@, source) {
        Some(i) => workspace_of_file(app.workspaces@, app.files@[i].id),
        None => None,
    }
}

/// The workspace that mounts the file with a source.
pub fn workspace_for_source(app: &HxyApp, source: &TabSource) -> (r: Option<WorkspaceId>)
    ensures
        match (workspace_for(*app, source@), r) {
            (Some(i), Some(id)) => 0 <= i < app.workspaces@.len() && app.workspaces@[i].id == id,
            (None, None) => true,
            _ => false,
        },
{
    match find_file_by_source(&app.files, source) {
        Some(i) => match find_workspace_of_file(&app.workspaces, app.files[i].id) {
            Some(w) => Some(app.workspaces[w].id),
            None => None,
        },
        None => None,
    }
}

/// Whether a mount was made by a plugin from a token.
pub open spec fn mount_matches(m: MountedPlugin, plugin_name: Seq<char>, token: Seq<char>) -> bool {
    m.plugin_name@ == plugin_name && m.token@ == token
}

/// Place of the first mount that a plugin made from a token.
pub open spec fn mount_for(list: Seq<MountedPlugin>, plugin_name: Seq<char>, token: Seq<char>)
    -> Option<int>
    decreases list.len(),
{
    if list.len() == 0 {
        None
    } else {
        match mount_for(list.drop_last(), plugin_name, token) {
            Some(i) => Some(i),
            None => if mount_matches(list.last(), plugin_name, token) {
                Some(list.len() - 1)
            } else {
                None
            },
        }
    }
}

proof fn lemma_mount_for(
    list: Seq<MountedPlugin>,
    plugin_name: Seq<char>,
    token: Seq<char>,
    i: int,
)
    requires
        0 <= i < list.len(),
        mount_matches(list[i], plugin_name, token),
        forall|j: int| 0 <= j < i ==> !mount_matches(#[trigger] list[j], plugin_name, token),
    ensures
        mount_for(list, plugin_name, token) == Some(i),
    decreases list.len(),
{
    if i < list.len() - 1 {
        lemma_mount_for(list.drop_last(), plugin_name, token, i);
    } else {
        lemma_no_mount_for(list.drop_last(), plugin_name, token);
    }
}

proof fn lemma_no_mount_for(list: Seq<MountedPlugin>, plugin_name: Seq<char>, token: Seq<char>)
    requires
        forall|j: int|
            0 <= j < list.len() ==> !mount_matches(#[trigger] list[j], plugin_name, token),
    ensures
        mount_for(list, plugin_name, token) is None,
    decreases list.len(),
{
    if list.len() > 0 {
        lemma_no_mount_for(list.drop_last(), plugin_name, token);
    }
}

fn find_mount_for(list: &Vec<MountedPlugin>, plugin_name: &String, token: &String) -> (r: Option<
    usize,
>)
    ensures
        match (mount_for(list@, plugin_name@, token@), r) {
            (Some(a), Some(b)) => a == b && b < list@.len() && mount_matches(
                list@[b as int],
                plugin_name@,
                token@,
            ),
            (None, None) => forall|j: int|
                0 <= j < list@.len() ==> !mount_matches(#[trigger] list@[j], plugin_name@, token@),
            _ => false,
        },
{
    let mut i: usize = 0;
    while i < list.len()
        invariant
            i <= list@.len(),
            forall|j: int|
                0 <= j < i ==> !mount_matches(#[trigger] list@[j], plugin_name@, token@),
        decreases list.len() - i,
    {
        if list[i].plugin_name == *plugin_name && list[i].token == *token {
            proof {
                lemma_mount_for(list@, plugin_name@, token@, i as int);
            }
            return Some(i);
        }
        i = i + 1;
    }
    proof {
        lemma_no_mount_for(list@, plugin_name@, token@);
    }
    None
}

/// A place where entries of a source can be read.
#[derive(Clone, Copy, Debug, PartialEq, Eq, Structural)]
pub enum MountRef {
    Workspace { workspace_id: WorkspaceId, writable: bool },
    Plugin { mount_id: MountId, writable: bool },
}

impl MountRef {
    pub open spec fn spec_writable(self) -> bool {
        match self {
            MountRef::Workspace { writable, .. } => writable,
            MountRef::Plugin { writable, .. } => writable,
        }
    }

    /// Whether entries can be written back.
    #[verifier::when_used_as_spec(spec_writable)]
    pub fn writable(self) -> (r: bool)
        ensures
            r == self.spec_writable(),
    {
        match self {
            MountRef::Workspace { writable, .. } => writable,
            MountRef::Plugin { writable, .. } => writable,
        }
    }
}

/// Where the entries of a source can be read: for a plugin's mount that mount
/// if it is usable, and for any other source the workspace that mounts the
/// file with it.
pub open spec fn live_mount(app: HxyApp, source: SourceView) -> Option<MountRef> {
    match source {
        SourceView::PluginMount { plugin_name, token, .. } => match mount_for(
            app.mounts@,
            plugin_name,
            token,
        ) {
            Some(i) => match app.mounts@[i].status {
                MountStatus::Ready { writable } => Some(
                    MountRef::Plugin { mount_id: app.mounts@[i].id, writable },
                ),
                MountStatus::Failed { .. } => None,
            },
            None => None,
        },
        _ => match workspace_for(app, source) {
            Some(i) => Some(
                MountRef::Workspace {
                    workspace_id: app.workspaces@[i].id,
                    writable: app.workspaces@[i].writable,
                },
            ),
            None => None,
        },
    }
}

/// Finds where the entries of a source can be read.
pub fn find_mount_for_source(app: &HxyApp, source: &TabSource) -> (r: Option<MountRef>)
    ensures
        r == live_mount(*app, source@),
{
    match source {
        TabSource::PluginMount { plugin_name, token, .. } => match find_mount_for(
            &app.mounts,
            plugin_name,
            token,
        ) {
            Some(i) => match app.mounts[i].status {
                MountStatus::Ready { writable } => Some(
                    MountRef::Plugin { mount_id: app.mounts[i].id, writable },
                ),
                MountStatus::Failed { .. } => None,
            },
            None => None,
        },
        _ => match find_file_by_source(&app.files, source) {
            Some(i) => match find_workspace_of_file(&app.workspaces, app.files[i].id) {
                Some(w) => Some(
                    MountRef::Workspace {
                        workspace_id: app.workspaces[w].id,
                        writable: app.workspaces[w].writable,
                    },
                ),
                None => None,
            },
            None => None,
        },
    }
}

/// Whether a plugin's mount from a token is there but cannot be used.
pub open spec fn mount_failed(list: Seq<MountedPlugin>, plugin_name: Seq<char>, token: Seq<char>)
    -> bool {
    exists|i: int|
        0 <= i < list.len() && mount_matches(#[trigger] list[i], plugin_name, token)
            && list[i].status is Failed
}

/// Whether a plugin's mount for a source is there but cannot be used.
pub open spec fn mount_pending(app: HxyApp, source: SourceView) -> bool {
    match source {
        SourceView::PluginMount { plugin_name, token, .. } => mount_failed(
            app.mounts@,
            plugin_name,
            token,
        ),
        _ => false,
    }
}

fn has_failed_mount(list: &Vec<MountedPlugin>, plugin_name: &String, token: &String) -> (r: bool)
    ensures
        r == mount_failed(list@, plugin_name@, token@),
{
    let mut i: usize = 0;
    while i < list.len()
        invariant
            i <= list@.len(),
            forall|j: int|
                0 <= j < i ==> !(mount_matches(#[trigger] list@[j], plugin_name@, token@)
                    && list@[j].status is Failed),
        decreases list.len() - i,
    {
        if list[i].plugin_name == *plugin_name && list[i].token == *token {
            if let MountStatus::Failed { .. } = list[i].status {
                assert(mount_matches(list@[i as int], plugin_name@, token@));
                return true;
            }
        }
        i = i + 1;
    }
    false
}

/// Whether a plugin's mount for a source is there but cannot be used, so that
/// a tab that needs it waits rather than goes.
pub fn parent_mount_pending(app: &HxyApp, source: &TabSource) -> (r: bool)
    ensures
        r == mount_pending(*app, source@),
{
    match source {
        TabSource::PluginMount { plugin_name, token, .. } => has_failed_mount(
            &app.mounts,
            plugin_name,
            token,
        ),
        _ => false,
    }
}

/// The first file among tabs of the outer dock.
pub open spec fn first_file_tab(list: Seq<DockTab>) -> Option<FileId>
    decreases list.len(),
{
    if list.len() == 0 {
        None
    } else {
        match list[0] {
            DockTab::Outer(Tab::File(id)) => Some(id),
            _ => first_file_tab(list.drop_first()),
        }
    }
}

fn find_first_file_tab(list: &Vec<DockTab>) -> (r: Option<FileId>)
    ensures
        r == first_file_tab(list@),
{
    let mut i: usize = 0;
    assert(list@.skip(0) =~= list@);
    while i < list.len()
        invariant
            i <= list@.len(),
            first_file_tab(list@.skip(i as int)) == first_file_tab(list@),
        decreases list.len() - i,
    {
        assert(list@.skip(i as int).drop_first() =~= list@.skip(i as int + 1));
        if let DockTab::Outer(Tab::File(id)) = list[i] {
            return Some(id);
        }
        i = i + 1;
    }
    None
}

/// The file of the focused tab: itself where it is a file's, and the active
/// one inside where it is a workspace's.
pub open spec fn focused_file(app: HxyApp) -> Option<FileId> {
    match focused_tab(app.dock@) {
        Some(DockTab::Outer(Tab::File(id))) => Some(id),
        Some(DockTab::Outer(Tab::Workspace(w))) => match workspace_at(app.workspaces@, w) {
            Some(i) => Some(inner_active(app.workspaces@[i].dock@, app.workspaces@[i].editor_id)),
            None => None,
        },
        _ => None,
    }
}

/// The file that commands act on: that of the focused tab, else the one that
/// was focused last if it is open, else the first in the dock.
pub open spec fn active_file(app: HxyApp) -> Option<FileId> {
    match focused_file(app) {
        Some(id) => Some(id),
        None => match app.last_active_file {
            Some(id) => if file_at(app.files@, id) is Some {
                Some(id)
            } else {
                first_file_tab(tab_list(app.dock@))
            },
            None => first_file_tab(tab_list(app.dock@)),
        },
    }
}

/// The workspace that is remembered as the last focused one after the active
/// file was asked for.
pub open spec fn workspace_seen(app: HxyApp) -> Option<WorkspaceId> {
    match focused_tab(app.dock@) {
        Some(DockTab::Outer(Tab::Workspace(w))) => if workspace_at(app.workspaces@, w) is Some {
            Some(w)
        } else {
            app.last_active_workspace
        },
        _ => app.last_active_workspace,
    }
}

/// The editor after the active file was asked for.
pub open spec fn after_active_file(app: HxyApp) -> HxyApp {
    HxyApp {
        last_active_file: match active_file(app) {
            Some(id) => Some(id),
            None => app.last_active_file,
        },
        last_active_workspace: workspace_seen(app),
        ..app
    }
}

/// Finds the file that commands act on and remembers it.
pub fn active_file_id(app: &mut HxyApp) -> (r: Option<FileId>)
    requires
        old(app).wf(),
    ensures
        final(app).wf(),
        r == active_file(*old(app)),
        *final(app) == after_active_file(*old(app)),
{
    match active_focused(&app.dock) {
        Some(DockTab::Outer(Tab::File(id))) => {
            app.last_active_file = Some(id);
            return Some(id);
        },
        Some(DockTab::Outer(Tab::Workspace(w))) => {
            if let Some(i) = find_workspace(&app.workspaces, w) {
                let id = inner_active_file(
                    &app.workspaces[i].dock,
                    app.workspaces[i].editor_id,
                );
                app.last_active_file = Some(id);
                app.last_active_workspace = Some(w);
                return Some(id);
            }
        },
        _ => {},
    }
    if let Some(id) = app.last_active_file {
        if find_file(&app.files, id).is_some() {
            return Some(id);
        }
    }
    let list = all_tabs(&app.dock);
    match find_first_file_tab(&list) {
        Some(id) => {
            app.last_active_file = Some(id);
            Some(id)
        },
        None => None,
    }
}

/// The workspace that commands act on: the focused one, else the one that was
/// focused last if it is there, else the first.
pub open spec fn active_workspace(app: HxyApp) -> Option<WorkspaceId> {
    match focused_tab(app.dock@) {
        Some(DockTab::Outer(Tab::Workspace(id))) => Some(id),
        _ => match app.last_active_workspace {
            Some(id) => if workspace_at(app.workspaces@, id) is Some {
                Some(id)
            } else {
                first_workspace(app)
            },
            None => first_workspace(app),
        },
    }
}

/// The workspace with the lowest id.
pub open spec fn first_workspace(app: HxyApp) -> Option<WorkspaceId> {
    if app.workspaces@.len() > 0 {
        Some(app.workspaces@[0].id)
    } else {
        None
    }
}

/// Finds the workspace that commands act on and remembers it.
pub fn active_workspace_id(app: &mut HxyApp) -> (r: Option<WorkspaceId>)
    requires
        old(app).wf(),
    ensures
        final(app).wf(),
        r == active_workspace(*old(app)),
        *final(app) == (HxyApp {
            last_active_workspace: match r {
                Some(id) => Some(id),
                None => old(app).last_active_workspace,
            },
            ..*old(app)
        }),
{
    if let Some(DockTab::Outer(Tab::Workspace(id))) = active_focused(&app.dock) {
        app.last_active_workspace = Some(id);
        return Some(id);
    }
    if let Some(id) = app.last_active_workspace {
        if find_workspace(&app.workspaces, id).is_some() {
            return Some(id);
        }
    }
    if app.workspaces.len() > 0 {
        let id = app.workspaces[0].id;
        app.last_active_workspace = Some(id);
        Some(id)
    } else {
        None
    }
}

/// With a workspace open there is one that commands act on.
pub proof fn law_active_workspace_exists(app: HxyApp)
    requires
        app.workspaces@.len() > 0,
    ensures
        active_workspace(app) is Some,
{
}

/// With a file's tab in the dock there is a file that commands act on.
pub proof fn law_active_file_exists(app: HxyApp)
    requires
        first_file_tab(tab_list(app.dock@)) is Some,
    ensures
        active_file(app) is Some,
{
}

/// Asking for the active file again gives the same one.
pub proof fn law_active_file_stable(app: HxyApp)
    requires
        active_file(app) matches Some(id) ==> file_at(app.files@, id) is Some,
    ensures
        active_file(after_active_file(app)) == active_file(app),
{
}

/// The workspace that shows a file, and the tab that shows it there: as the
/// mounted file, or as an entry.
pub open spec fn shown_in(list: Seq<Workspace>, id: FileId) -> Option<(int, WorkspaceTab)>
    decreases list.len(),
{
    if list.len() == 0 {
        None
    } else {
        match shown_in(list.drop_last(), id) {
            Some(hit) => Some(hit),
            None => if list.last().editor_id == id {
                Some((list.len() - 1, WorkspaceTab::Editor))
            } else if list.last().dock@.holds(DockTab::Inner(WorkspaceTab::Entry(id))) {
                Some((list.len() - 1, WorkspaceTab::Entry(id)))
            } else {
                None
            },
        }
    }
}

/// Whether a workspace shows a file.
pub open spec fn shows_file(w: Workspace, id: FileId) -> bool {
    w.editor_id == id || w.dock@.holds(DockTab::Inner(WorkspaceTab::Entry(id)))
}

proof fn lemma_shown_in(list: Seq<Workspace>, id: FileId, i: int)
    requires
        0 <= i < list.len(),
        shows_file(list[i], id),
        forall|j: int| 0 <= j < i ==> !shows_file(#[trigger] list[j], id),
    ensures
        shown_in(list, id) == Some(
            (
                i,
                if list[i].editor_id == id {
                    WorkspaceTab::Editor
                } else {
                    WorkspaceTab::Entry(id)
                },
            ),
        ),
    decreases list.len(),
{
    if i < list.len() - 1 {
        lemma_shown_in(list.drop_last(), id, i);
    } else {
        lemma_not_shown_in(list.drop_last(), id);
    }
}

proof fn lemma_not_shown_in(list: Seq<Workspace>, id: FileId)
    requires
        forall|j: int| 0 <= j < list.len() ==> !shows_file(#[trigger] list[j], id),
    ensures
        shown_in(list, id) is None,
    decreases list.len(),
{
    if list.len() > 0 {
        lemma_not_shown_in(list.drop_last(), id);
    }
}

pub(crate) fn find_shown_in(list: &Vec<Workspace>, id: FileId) -> (r: Option<(usize, WorkspaceTab)>)
    ensures
        match (shown_in(list@, id), r) {
            (Some(a), Some(b)) => a.0 == b.0 && a.1 == b.1 && b.0 < list@.len(),
            (None, None) => true,
            _ => false,
        },
{
    let mut i: usize = 0;
    while i < list.len()
        invariant
            i <= list@.len(),
            forall|j: int| 0 <= j < i ==> !shows_file(#[trigger] list@[j], id),
        decreases list.len() - i,
    {
        if list[i].editor_id == id {
            proof {
                lemma_shown_in(list@, id, i as int);
            }
            return Some((i, WorkspaceTab::Editor));
        }
        if list[i].dock.find_tab(&DockTab::Inner(WorkspaceTab::Entry(id))).is_some() {
            proof {
                lemma_shown_in(list@, id, i as int);
            }
            return Some((i, WorkspaceTab::Entry(id)));
        }
        i = i + 1;
    }
    proof {
        lemma_not_shown_in(list@, id);
    }
    None
}

/// The dock after a tab was opened in its leaf, without moving the focus.
pub open spec fn opened_in_leaf(v: DockView, tab: DockTab) -> DockView {
    match v.find(tab) {
        Some(pos) => v.activated(pos),
        None => v,
    }
}

/// Whether one list of workspaces is another in which one dock changed.
pub open spec fn dock_changed(
    before: Seq<Workspace>,
    i: int,
    view: DockView,
    after: Seq<Workspace>,
) -> bool {
    &&& 0 <= i < before.len()
    &&& after.len() == before.len()
    &&& after == before.update(i, after[i])
    &&& after[i] == (Workspace { dock: after[i].dock, ..before[i] })
    &&& after[i].dock@ == view
}

/// Whether one editor is another in which the tab of a file was brought to the
/// front: its own tab, or that of the workspace that shows it together with
/// its tab inside. A file without a tab changes nothing.
pub open spec fn file_focused(before: HxyApp, id: FileId, after: HxyApp) -> bool {
    &&& after == (HxyApp { dock: after.dock, workspaces: after.workspaces, ..before })
    &&& if before.dock@.holds(DockTab::Outer(Tab::File(id))) {
        after.dock@ == shown(before.dock@, DockTab::Outer(Tab::File(id))) && after.workspaces
            == before.workspaces
    } else {
        match shown_in(before.workspaces@, id) {
            Some((i, tab)) => after.dock@ == shown(
                before.dock@,
                DockTab::Outer(Tab::Workspace(before.workspaces@[i].id)),
            ) && dock_changed(
                before.workspaces@,
                i,
                opened_in_leaf(before.workspaces@[i].dock@, DockTab::Inner(tab)),
                after.workspaces@,
            ),
            None => after.dock@ == before.dock@ && after.workspaces == before.workspaces,
        }
    }
}

/// Brings the tab of a file to the front.
pub fn focus_file_tab(app: &mut HxyApp, id: FileId)
    requires
        old(app).wf(),
    ensures
        final(app).wf(),
        file_focused(*old(app), id, *final(app)),
{
    if focus_tab(&mut app.dock, DockTab::Outer(Tab::File(id))) {
        return;
    }
    if let Some((i, tab)) = find_shown_in(&app.workspaces, id) {
        let wid = app.workspaces[i].id;
        focus_tab(&mut app.dock, DockTab::Outer(Tab::Workspace(wid)));
        open_inner(&mut app.workspaces, i, DockTab::Inner(tab));
    }
}

/// Opens a tab of a workspace in its leaf.
fn open_inner(list: &mut Vec<Workspace>, i: usize, tab: DockTab)
    requires
        i < old(list)@.len(),
        old(list)@[i as int].dock.wf(),
    ensures
        dock_changed(
            old(list)@,
            i as int,
            opened_in_leaf(old(list)@[i as int].dock@, tab),
            final(list)@,
        ),
        final(list)@[i as int].dock.wf(),
{
    let dock = &mut list[i].dock;
    if let Some(pos) = dock.find_tab(&tab) {
        dock.set_active_tab(pos);
    }
}

/// The file of an id is the first that has it; there is none only where no file has it.
pub proof fn law_file_of_id_is_found(files: Seq<OpenFile>, id: FileId)
    ensures
        match file_at(files, id) {
            Some(i) => 0 <= i < files.len() && files[i].id == id && forall|j: int|
                0 <= j < i ==> !((#[trigger] files[j]).id == id),
            None => forall|j: int|
                0 <= j < files.len() ==> !((#[trigger] files[j]).id == id),
        },
    decreases files.len(),
{
    if files.len() > 0 {
        let init = files.drop_last();
        law_file_of_id_is_found(init, id);
        let n = init.len() as int;
        assert(files.last() == files[n]);
        assert forall|j: int| 0 <= j < n implies init[j] == #[trigger] files[j] by {}
        if file_at(init, id) is None {
            assert forall|j: int| 0 <= j < n implies !((#[trigger] files[j]).id == id) by {
                assert(init[j] == files[j]);
            }
        }
    }
}

/// The workspace of an id is the first that has it; there is none only where no
/// workspace has it.
pub proof fn law_workspace_of_id_is_found(list: Seq<Workspace>, id: WorkspaceId)
    ensures
        match workspace_at(list, id) {
            Some(i) => 0 <= i < list.len() && list[i].id == id && forall|j: int|
                0 <= j < i ==> !((#[trigger] list[j]).id == id),
            None => forall|j: int|
                0 <= j < list.len() ==> !((#[trigger] list[j]).id == id),
        },
    decreases list.len(),
{
    if list.len() > 0 {
        let init = list.drop_last();
        law_workspace_of_id_is_found(init, id);
        let n = init.len() as int;
        assert(list.last() == list[n]);
        assert forall|j: int| 0 <= j < n implies init[j] == #[trigger] list[j] by {}
        if workspace_at(init, id) is None {
            assert forall|j: int| 0 <= j < n implies !((#[trigger] list[j]).id == id) by {
                assert(init[j] == list[j]);
            }
        }
    }
}

/// The mount of an id is the first that has it; there is none only where no mount has it.
pub proof fn law_mount_of_id_is_found(list: Seq<MountedPlugin>, id: MountId)
    ensures
        match mount_at(list, id) {
            Some(i) => 0 <= i < list.len() && list[i].id == id && forall|j: int|
                0 <= j < i ==> !((#[trigger] list[j]).id == id),
            None => forall|j: int|
                0 <= j < list.len() ==> !((#[trigger] list[j]).id == id),
        },
    decreases list.len(),
{
    if list.len() > 0 {
        let init = list.drop_last();
        law_mount_of_id_is_found(init, id);
        let n = init.len() as int;
        assert(list.last() == list[n]);
        assert forall|j: int| 0 <= j < n implies init[j] == #[trigger] list[j] by {}
        if mount_at(init, id) is None {
            assert forall|j: int| 0 <= j < n implies !((#[trigger] list[j]).id == id) by {
                assert(init[j] == list[j]);
            }
        }
    }
}

/// The file of a source is the first whose bytes come from it; there is none only where
/// no file has its bytes from there.
pub proof fn law_file_of_source_is_found(files: Seq<OpenFile>, source: SourceView)
    ensures
        match file_with_source(files, source) {
            Some(i) => 0 <= i < files.len() && files[i].source is Some && (files[i].source->0)@ == source && forall|j: int|
                0 <= j < i ==> !((#[trigger] files[j]).source is Some && ((#[trigger] files[j]).source->0)@ == source),
            None => forall|j: int|
                0 <= j < files.len() ==> !((#[trigger] files[j]).source is Some && ((#[trigger] files[j]).source->0)@ == source),
        },
    decreases files.len(),
{
    if files.len() > 0 {
        let init = files.drop_last();
        law_file_of_source_is_found(init, source);
        let n = init.len() as int;
        assert(files.last() == files[n]);
        assert forall|j: int| 0 <= j < n implies init[j] == #[trigger] files[j] by {}
        if file_with_source(init, source) is None {
            assert forall|j: int| 0 <= j < n implies !((#[trigger] files[j]).source is Some && ((#[trigger] files[j]).source->0)@ == source) by {
                assert(init[j] == files[j]);
            }
        }
    }
}

/// The workspace of a file is the first that mounts it; there is none only where none
/// mounts it.
pub proof fn law_workspace_of_file_is_found(list: Seq<Workspace>, id: FileId)
    ensures
        match workspace_of_file(list, id) {
            Some(i) => 0 <= i < list.len() && list[i].editor_id == id && forall|j: int|
                0 <= j < i ==> !((#[trigger] list[j]).editor_id == id),
            None => forall|j: int|
                0 <= j < list.len() ==> !((#[trigger] list[j]).editor_id == id),
        },
    decreases list.len(),
{
    if list.len() > 0 {
        let init = list.drop_last();
        law_workspace_of_file_is_found(init, id);
        let n = init.len() as int;
        assert(list.last() == list[n]);
        assert forall|j: int| 0 <= j < n implies init[j] == #[trigger] list[j] by {}
        if workspace_of_file(init, id) is None {
            assert forall|j: int| 0 <= j < n implies !((#[trigger] list[j]).editor_id == id) by {
                assert(init[j] == list[j]);
            }
        }
    }
}

/// The mount of a token is the first that the plugin made from it; there is none only
/// where the plugin made none from it.
pub proof fn law_mount_of_token_is_found(list: Seq<MountedPlugin>, plugin_name: Seq<char>, token: Seq<char>)
    ensures
        match mount_for(list, plugin_name, token) {
            Some(i) => 0 <= i < list.len() && list[i].plugin_name@ == plugin_name && list[i].token@ == token && forall|j: int|
                0 <= j < i ==> !((#[trigger] list[j]).plugin_name@ == plugin_name && (#[trigger] list[j]).token@ == token),
            None => forall|j: int|
                0 <= j < list.len() ==> !((#[trigger] list[j]).plugin_name@ == plugin_name && (#[trigger] list[j]).token@ == token),
        },
    decreases list.len(),
{
    if list.len() > 0 {
        let init = list.drop_last();
        law_mount_of_token_is_found(init, plugin_name, token);
        let n = init.len() as int;
        assert(list.last() == list[n]);
        assert forall|j: int| 0 <= j < n implies init[j] == #[trigger] list[j] by {}
        if mount_for(init, plugin_name, token) is None {
            assert forall|j: int| 0 <= j < n implies !((#[trigger] list[j]).plugin_name@ == plugin_name && (#[trigger] list[j]).token@ == token) by {
                assert(init[j] == list[j]);
            }
        }
    }
}

/// A plugin's mount is used where it is ready, as writable as it is, and not where it
/// failed. Any other source is read through the workspace that mounts the file with it.
pub proof fn law_entries_are_read_from_their_mount(app: HxyApp, source: SourceView)
    ensures
        source matches SourceView::PluginMount { plugin_name: p, token: t, title: _ } ==> match live_mount(
            app,
            source,
        ) {
            Some(MountRef::Plugin { mount_id, writable }) => exists|i: int|
                0 <= i < app.mounts@.len() && (#[trigger] app.mounts@[i]).id == mount_id
                    && app.mounts@[i].plugin_name@ == p && app.mounts@[i].token@ == t
                    && app.mounts@[i].status == (MountStatus::Ready { writable }),
            Some(_) => false,
            None => forall|i: int|
                0 <= i < app.mounts@.len() && (#[trigger] app.mounts@[i]).plugin_name@ == p
                    && app.mounts@[i].token@ == t && (forall|j: int|
                    0 <= j < i ==> !((#[trigger] app.mounts@[j]).plugin_name@ == p
                        && app.mounts@[j].token@ == t)) ==> app.mounts@[i].status is Failed,
        },
        !(source is PluginMount) ==> match live_mount(app, source) {
            Some(MountRef::Workspace { workspace_id, writable }) => exists|w: int, f: int|
                0 <= w < app.workspaces@.len() && 0 <= f < app.files@.len() && (
                #[trigger] app.workspaces@[w]).id == workspace_id && app.workspaces@[w].writable
                    == writable && app.workspaces@[w].editor_id == (#[trigger] app.files@[f]).id
                    && app.files@[f].source is Some && (app.files@[f].source->0)@ == source,
            Some(_) => false,
            None => true,
        },
{
    match source {
        SourceView::PluginMount { plugin_name, token, title } => {
            law_mount_of_token_is_found(app.mounts@, plugin_name, token);
        },
        _ => {
            law_file_of_source_is_found(app.files@, source);
            if let Some(f) = file_with_source(app.files@, source) {
                law_workspace_of_file_is_found(app.workspaces@, app.files@[f].id);
                if let Some(w) = workspace_of_file(app.workspaces@, app.files@[f].id) {
                    assert(app.workspaces@[w].editor_id == app.files@[f].id);
                }
            }
        },
    }
}

/// Commands act on the file of the focused tab; with a workspace in front on the file
/// that is open inside it; with neither on the file that was focused last if it is still
/// open, and else on the first file in the dock. The file is then remembered.
pub proof fn law_commands_act_on_focused_file(app: HxyApp, id: FileId, w: WorkspaceId, i: int)
    ensures
        focused_tab(app.dock@) == Some(DockTab::Outer(Tab::File(id))) ==> active_file(app) == Some(
            id,
        ),
        0 <= i < app.workspaces@.len() && app.workspaces@[i].id == w && (forall|j: int|
            0 <= j < i ==> (#[trigger] app.workspaces@[j]).id != w) && focused_tab(app.dock@)
            == Some(DockTab::Outer(Tab::Workspace(w))) ==> active_file(app) == Some(
            inner_active(app.workspaces@[i].dock@, app.workspaces@[i].editor_id),
        ) && after_active_file(app).last_active_workspace == Some(w),
        focused_tab(app.dock@) is None && app.last_active_file == Some(id) && (exists|k: int|
            0 <= k < app.files@.len() && (#[trigger] app.files@[k]).id == id) ==> active_file(app)
            == Some(id),
        focused_tab(app.dock@) is None && app.last_active_file == Some(id) && (forall|k: int|
            0 <= k < app.files@.len() ==> (#[trigger] app.files@[k]).id != id) ==> active_file(app)
            == first_file_tab(tab_list(app.dock@)),
        focused_tab(app.dock@) is None && app.last_active_file is None ==> active_file(app)
            == first_file_tab(tab_list(app.dock@)),
        active_file(app) is Some ==> after_active_file(app).last_active_file == active_file(app),
        active_file(app) is None ==> after_active_file(app).last_active_file
            == app.last_active_file,
        after_active_file(app).files == app.files && after_active_file(app).dock == app.dock,
{
    law_file_of_id_is_found(app.files@, id);
    law_workspace_of_id_is_found(app.workspaces@, w);
    if 0 <= i < app.workspaces@.len() && app.workspaces@[i].id == w && (forall|j: int|
        0 <= j < i ==> (#[trigger] app.workspaces@[j]).id != w) {
        lemma_workspace_at(app.workspaces@, w, i);
    }
}

/// The first file among tabs has no file before it.
pub proof fn law_first_file_has_none_before(list: Seq<DockTab>)
    ensures
        match first_file_tab(list) {
            Some(id) => exists|i: int|
                0 <= i < list.len() && #[trigger] list[i] == DockTab::Outer(Tab::File(id))
                    && forall|j: int|
                    0 <= j < i ==> !((#[trigger] list[j]) matches DockTab::Outer(Tab::File(_))),
            None => forall|j: int|
                0 <= j < list.len() ==> !((#[trigger] list[j]) matches DockTab::Outer(Tab::File(_))),
        },
    decreases list.len(),
{
    if list.len() > 0 {
        let rest = list.drop_first();
        law_first_file_has_none_before(rest);
        match list[0] {
            DockTab::Outer(Tab::File(id)) => {
                assert(list[0] == DockTab::Outer(Tab::File(id)));
            },
            _ => match first_file_tab(rest) {
                Some(id) => {
                    let i = choose|i: int|
                        0 <= i < rest.len() && #[trigger] rest[i] == DockTab::Outer(Tab::File(id))
                            && forall|j: int|
                            0 <= j < i ==> !((#[trigger] rest[j]) matches DockTab::Outer(
                                Tab::File(_),
                            ));
                    assert(list[i + 1] == rest[i]);
                    assert forall|j: int| 0 <= j < i + 1 implies !(
                    (#[trigger] list[j]) matches DockTab::Outer(Tab::File(_))) by {
                        if j > 0 {
                            assert(list[j] == rest[j - 1]);
                        }
                    }
                },
                None => {
                    assert forall|j: int| 0 <= j < list.len() implies !(
                    (#[trigger] list[j]) matches DockTab::Outer(Tab::File(_))) by {
                        if j > 0 {
                            assert(list[j] == rest[j - 1]);
                        }
                    }
                },
            },
        }
    }
}

/// Commands on workspaces act on the one in front, else on the one that was in front
/// last if it is still there, else on the first.
pub proof fn law_commands_act_on_focused_workspace(app: HxyApp, w: WorkspaceId)
    ensures
        focused_tab(app.dock@) == Some(DockTab::Outer(Tab::Workspace(w))) ==> active_workspace(app)
            == Some(w),
        focused_tab(app.dock@) is None && app.last_active_workspace == Some(w) && (exists|k: int|
            0 <= k < app.workspaces@.len() && (#[trigger] app.workspaces@[k]).id == w)
            ==> active_workspace(app) == Some(w),
        focused_tab(app.dock@) is None && app.last_active_workspace is None
            && app.workspaces@.len() > 0 ==> active_workspace(app) == Some(app.workspaces@[0].id),
        focused_tab(app.dock@) is None && app.workspaces@.len() == 0 ==> active_workspace(app)
            is None,
{
    law_workspace_of_id_is_found(app.workspaces@, w);
    if app.last_active_workspace is Some {
        law_workspace_of_id_is_found(app.workspaces@, app.last_active_workspace->0);
    }
}

/// A file whose tab was brought to the front is the one that commands act on.
pub proof fn law_focused_file_becomes_active(before: HxyApp, id: FileId, after: HxyApp)
    requires
        file_focused(before, id, after),
        before.dock@.holds(DockTab::Outer(Tab::File(id))),
        before.dock@.find(DockTab::Outer(Tab::File(id))) is Some,
    ensures
        active_file(after) == Some(id),
        after.files == before.files && after.workspaces == before.workspaces,
        after.dock@.tabs() == before.dock@.tabs(),
{
    law_shown_tab_is_in_front(before.dock@, DockTab::Outer(Tab::File(id)));
}

/// The editor starts with no file, no workspace and no mount, with the palette shut and
/// no question asked, and one pane that holds the given tabs.
pub proof fn law_editor_starts_empty(
    r: HxyApp,
    tabs: Seq<DockTab>,
    settings: AppSettings,
    open_tabs: Vec<OpenTabState>,
    patterns_prompt: bool,
)
    requires
        starts_with(r, tabs, settings, open_tabs, patterns_prompt),
    ensures
        r.files@.len() == 0 && r.workspaces@.len() == 0 && r.mounts@.len() == 0,
        r.dock@.leaf(NodePos { surface: 0, node: 0 }) matches Some(leaf) && leaf.tabs == tabs
            && leaf.active == 0,
        !r.palette.open && r.pending_close_tab is None && r.pending_duplicate is None,
        r.settings == settings && r.open_tabs == open_tabs && r.patterns_prompt == patterns_prompt,
        r.last_active_file is None,
{
}

/// A file is shown in the first workspace that is its own or has it as an entry, by the
/// tab that shows it there; in none only where no workspace has it.
pub proof fn law_file_is_shown_in_its_workspace(list: Seq<Workspace>, id: FileId)
    ensures
        match shown_in(list, id) {
            Some((i, tab)) => {
                &&& 0 <= i < list.len()
                &&& tab is Editor ==> list[i].editor_id == id
                &&& tab matches WorkspaceTab::Entry(e) ==> e == id && list[i].dock@.holds(
                    DockTab::Inner(WorkspaceTab::Entry(id)),
                )
                &&& !(tab is VfsTree)
                &&& forall|j: int|
                    0 <= j < i ==> (#[trigger] list[j]).editor_id != id && !list[j].dock@.holds(
                        DockTab::Inner(WorkspaceTab::Entry(id)),
                    )
            },
            None => forall|j: int|
                0 <= j < list.len() ==> (#[trigger] list[j]).editor_id != id && !list[j].dock@.holds(
                    DockTab::Inner(WorkspaceTab::Entry(id)),
                ),
        },
    decreases list.len(),
{
    if list.len() > 0 {
        let init = list.drop_last();
        law_file_is_shown_in_its_workspace(init, id);
        assert(list.last() == list[list.len() - 1]);
        assert forall|j: int| 0 <= j < init.len() implies init[j] == #[trigger] list[j] by {}
        if shown_in(init, id) is None {
            assert forall|j: int| 0 <= j < init.len() implies (#[trigger] list[j]).editor_id != id
                && !list[j].dock@.holds(DockTab::Inner(WorkspaceTab::Entry(id))) by {
                assert(init[j] == list[j]);
            }
        }
    }
}

} // verus!

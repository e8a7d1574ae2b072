//! The panels of the dock: the console, the plugins, the tools for one file,
//! and the settings page.

use vstd::prelude::*;
use vstd::string::*;
use crate::closing::{redocked, set_visualizer};
#[allow(unused_imports)]
use crate::closing::{cross_clicked, lemma_file_at_found, visualizer_set};
use crate::console::{append_entry, entry_now, ConsoleEntry, ConsoleSeverity, LogLine};
#[allow(unused_imports)]
use crate::console::{logged, tail_of, CONSOLE_CAPACITY, FIRST_SECOND, LAST_SECOND};
#[allow(unused_imports)]
use crate::dock::DockView;
use crate::dock_ops::{
    show_below,
    show_page,
    show_tool_tab,
    toggle_below,
    toggle_page,
    toggle_tool_tab,
    SplitRequest,
    CONSOLE_KEEP,
    SEARCH_KEEP,
};
#[allow(unused_imports)]
use crate::dock_ops::{
    asks_root_split,
    closed,
    find_leaf_spec,
    page_shown,
    shown,
    tool_shown,
    LeafKind,
    TOOL_PANE_KEEP,
};
#[allow(unused_imports)]
use crate::commands::DockDir;
use crate::session::{active_workspace_id, find_file, find_workspace, HxyApp, Workspace};
#[allow(unused_imports)]
use crate::session::{
    active_workspace, dock_changed, file_at, lemma_file_at, workspace_at, GlobalSearchState,
};
use crate::tabs::{DockTab, FileId, Tab, WorkspaceId};
use crate::tool_pane::{toggle_tool_panel, toggle_workspace_vfs, ToolPanel};
#[allow(unused_imports)]
use crate::tool_pane::{lost_tools, tools_of, tree_item};
#[allow(unused_imports)]
use crate::dock_ops::VFS_TREE_KEEP;
#[allow(unused_imports)]
use crate::moves::tab_list;

verus! {

/// Whether the user closed the visualizer of a file.
pub open spec fn visualizer_dismissed(app: HxyApp, id: FileId) -> bool {
    file_at(app.files@, id) matches Some(i) && app.files@[i].visualizer_dismissed
}

/// Whether one editor is another in which a file's visualizer came to the front.
/// One that the user closed stays away.
pub open spec fn visualizer_came(
    before: HxyApp,
    id: FileId,
    split: Option<SplitRequest>,
    after: HxyApp,
) -> bool {
    if visualizer_dismissed(before, id) {
        split is None && after == before
    } else {
        tool_came(before, Tab::Visualizer(id), split, after)
    }
}

/// A visualizer that was closed by its cross does not come up by itself.
pub proof fn law_closed_visualizer_stays_away(
    before: HxyApp,
    id: FileId,
    mid: HxyApp,
    split: Option<SplitRequest>,
    after: HxyApp,
)
    requires
        file_at(before.files@, id) is Some,
        cross_clicked(before, Tab::Visualizer(id), true, mid),
        visualizer_came(mid, id, split, after),
    ensures
        split is None,
        after == mid,
{
    let i = file_at(before.files@, id)->0;
    lemma_file_at_found(before.files@, id);
    assert forall|j: int| 0 <= j < i implies (#[trigger] mid.files@[j]).id != id by {
        assert(mid.files@[j] == before.files@[j]);
    }
    lemma_file_at(mid.files@, id, i);
}

/// Whether one editor is another in which a tool's tab came to the front. It
/// goes to the pane of the tools, and a new pane is asked for where there is
/// none.
pub open spec fn tool_came(
    before: HxyApp,
    tab: Tab,
    split: Option<SplitRequest>,
    after: HxyApp,
) -> bool {
    &&& redocked(before, tool_shown(before.dock@, tab), after)
    &&& split is Some <==> !before.dock@.holds(DockTab::Outer(tab)) && find_leaf_spec(
        before.dock@,
        LeafKind::Tool,
    ) is None
    &&& split matches Some(s) ==> asks_root_split(
        s,
        DockDir::Right,
        TOOL_PANE_KEEP,
        DockTab::Outer(tab),
    )
}

/// Whether one editor is another in which a tool's tab was toggled: closed
/// where it was open, else brought to the front.
pub open spec fn tool_toggled(
    before: HxyApp,
    tab: Tab,
    split: Option<SplitRequest>,
    after: HxyApp,
) -> bool {
    if before.dock@.holds(DockTab::Outer(tab)) {
        redocked(before, closed(before.dock@, DockTab::Outer(tab)), after) && split is None
    } else {
        tool_came(before, tab, split, after)
    }
}

/// Whether one editor is another in which the console came to the front. A new
/// pane below everything is asked for where it is not open.
pub open spec fn console_came(before: HxyApp, split: Option<SplitRequest>, after: HxyApp) -> bool {
    let tab = DockTab::Outer(Tab::Console);
    &&& redocked(before, shown(before.dock@, tab), after)
    &&& split is None <==> before.dock@.holds(tab)
    &&& split matches Some(s) ==> asks_root_split(s, DockDir::Down, CONSOLE_KEEP, tab)
}

/// Whether one editor is another in which the console was toggled.
pub open spec fn console_toggled(before: HxyApp, split: Option<SplitRequest>, after: HxyApp)
    -> bool {
    let tab = DockTab::Outer(Tab::Console);
    &&& redocked(before, closed(before.dock@, tab), after)
    &&& split is None <==> before.dock@.holds(tab)
    &&& split matches Some(s) ==> asks_root_split(s, DockDir::Down, CONSOLE_KEEP, tab)
}

/// Whether one editor is another after a message went to its console. An error
/// also brings the console to the front.
pub open spec fn message_logged(
    before: HxyApp,
    severity: ConsoleSeverity,
    context: Seq<char>,
    message: Seq<char>,
    split: Option<SplitRequest>,
    after: HxyApp,
) -> bool {
    &&& after == (HxyApp { console: after.console, dock: after.dock, ..before })
    &&& after.console@.len() > 0
    &&& after.console@ == logged(before.console@, after.console@.last())
    &&& after.console@.last().severity == severity
    &&& after.console@.last().context@ == context
    &&& after.console@.last().message@ == message
    &&& if severity is Error {
        console_came(HxyApp { console: after.console, ..before }, split, after)
    } else {
        after.dock == before.dock && split is None
    }
}

/// The dock after the settings page was toggled.
pub open spec fn page_toggled(v: DockView, tab: Tab) -> DockView {
    if v.holds(DockTab::Outer(tab)) {
        closed(v, DockTab::Outer(tab))
    } else {
        v.pushed(DockTab::Outer(tab))
    }
}

/// Whether a file's visualizer came to the front after a template ran, where it should.
pub open spec fn visualizer_followed(
    before: HxyApp,
    file_id: FileId,
    has_targets: bool,
    r: Option<SplitRequest>,
    after: HxyApp,
) -> bool {
    &&& if (file_at(before.files@, file_id) matches Some(i)
        && before.files@[i].visualizer_open) && has_targets {
        visualizer_came(before, file_id, r, after)
    } else {
        r is None && after == before
    }
}

impl HxyApp {
    fn show_tool(&mut self, tab: Tab) -> (r: Option<SplitRequest>)
        requires
            old(self).wf(),
        ensures
            final(self).wf(),
            tool_came(*old(self), tab, r, *final(self)),
    {
        show_tool_tab(&mut self.dock, tab)
    }

    pub(crate) fn toggle_tool(&mut self, tab: Tab) -> (r: Option<SplitRequest>)
        requires
            old(self).wf(),
        ensures
            final(self).wf(),
            tool_toggled(*old(self), tab, r, *final(self)),
    {
        toggle_tool_tab(&mut self.dock, tab)
    }

    /// Brings the list of plugins to the front.
    pub fn show_plugins(&mut self) -> (r: Option<SplitRequest>)
        requires
            old(self).wf(),
        ensures
            final(self).wf(),
            tool_came(*old(self), Tab::Plugins, r, *final(self)),
    {
        self.show_tool(Tab::Plugins)
    }

    /// Closes the list of plugins, or brings it to the front.
    pub fn toggle_plugins(&mut self) -> (r: Option<SplitRequest>)
        requires
            old(self).wf(),
        ensures
            final(self).wf(),
            tool_toggled(*old(self), Tab::Plugins, r, *final(self)),
    {
        self.toggle_tool(Tab::Plugins)
    }

    /// Brings the inspector to the front.
    pub fn show_inspector(&mut self) -> (r: Option<SplitRequest>)
        requires
            old(self).wf(),
        ensures
            final(self).wf(),
            tool_came(*old(self), Tab::Inspector, r, *final(self)),
    {
        self.show_tool(Tab::Inspector)
    }

    /// Closes the inspector, or brings it to the front.
    pub fn toggle_inspector(&mut self) -> (r: Option<SplitRequest>)
        requires
            old(self).wf(),
        ensures
            final(self).wf(),
            tool_toggled(*old(self), Tab::Inspector, r, *final(self)),
    {
        self.toggle_tool(Tab::Inspector)
    }

    /// Brings the memory panel to the front.
    pub fn show_memory_panel(&mut self) -> (r: Option<SplitRequest>)
        requires
            old(self).wf(),
        ensures
            final(self).wf(),
            tool_came(*old(self), Tab::Memory, r, *final(self)),
    {
        self.show_tool(Tab::Memory)
    }

    /// Closes the memory panel, or brings it to the front.
    pub fn toggle_memory_panel(&mut self) -> (r: Option<SplitRequest>)
        requires
            old(self).wf(),
        ensures
            final(self).wf(),
            tool_toggled(*old(self), Tab::Memory, r, *final(self)),
    {
        self.toggle_tool(Tab::Memory)
    }

    /// Brings a file's entropy panel to the front.
    pub fn show_entropy_for(&mut self, file_id: FileId) -> (r: Option<SplitRequest>)
        requires
            old(self).wf(),
        ensures
            final(self).wf(),
            tool_came(*old(self), Tab::Entropy(file_id), r, *final(self)),
    {
        self.show_tool(Tab::Entropy(file_id))
    }

    /// Brings a file's panel of found strings to the front.
    pub fn show_strings_for(&mut self, file_id: FileId) -> (r: Option<SplitRequest>)
        requires
            old(self).wf(),
        ensures
            final(self).wf(),
            tool_came(*old(self), Tab::Strings(file_id), r, *final(self)),
    {
        self.show_tool(Tab::Strings(file_id))
    }

    /// Brings a file's checksums to the front.
    pub fn show_checksums_for(&mut self, file_id: FileId) -> (r: Option<SplitRequest>)
        requires
            old(self).wf(),
        ensures
            final(self).wf(),
            tool_came(*old(self), Tab::Checksums(file_id), r, *final(self)),
    {
        self.show_tool(Tab::Checksums(file_id))
    }

    /// Brings a file's visualizer to the front, unless the user closed it.
    pub fn show_visualizer_for(&mut self, file_id: FileId) -> (r: Option<SplitRequest>)
        requires
            old(self).wf(),
        ensures
            final(self).wf(),
            visualizer_came(*old(self), file_id, r, *final(self)),
    {
        if let Some(i) = find_file(&self.files, file_id) {
            if self.files[i].visualizer_dismissed {
                return None;
            }
        }
        self.show_tool(Tab::Visualizer(file_id))
    }

    /// Brings a file's visualizer to the front because the user asks for it,
    /// though it was closed before.
    pub fn reopen_visualizer_for(&mut self, file_id: FileId) -> (r: Option<SplitRequest>)
        requires
            old(self).wf(),
        ensures
            final(self).wf(),
            exists|mid: HxyApp| #[trigger]
                visualizer_set(*old(self), file_id, true, mid) && tool_came(
                    mid,
                    Tab::Visualizer(file_id),
                    r,
                    *final(self),
                ),
    {
        set_visualizer(self, file_id, true);
        let ghost mid = *self;
        assert(visualizer_set(*old(self), file_id, true, mid));
        self.show_tool(Tab::Visualizer(file_id))
    }

    /// Brings a file's visualizer to the front after a template ran, but only
    /// where it was open before and there is something to show.
    pub fn auto_open_visualizer_for(&mut self, file_id: FileId, has_targets: bool) -> (r: Option<
        SplitRequest,
    >)
        requires
            old(self).wf(),
        ensures
            final(self).wf(),
            visualizer_followed(*old(self), file_id, has_targets, r, *final(self)),
    {
        let wanted = match find_file(&self.files, file_id) {
            Some(i) => self.files[i].visualizer_open,
            None => false,
        };
        if wanted && has_targets {
            self.show_visualizer_for(file_id)
        } else {
            None
        }
    }

    /// Brings the console to the front.
    pub fn show_console(&mut self) -> (r: Option<SplitRequest>)
        requires
            old(self).wf(),
        ensures
            final(self).wf(),
            console_came(*old(self), r, *final(self)),
    {
        show_below(&mut self.dock, Tab::Console, CONSOLE_KEEP)
    }

    /// Closes the console, or brings it to the front.
    pub fn toggle_console(&mut self) -> (r: Option<SplitRequest>)
        requires
            old(self).wf(),
        ensures
            final(self).wf(),
            console_toggled(*old(self), r, *final(self)),
    {
        toggle_below(&mut self.dock, Tab::Console, CONSOLE_KEEP)
    }

    /// Brings the settings to the front.
    pub fn show_settings(&mut self)
        requires
            old(self).wf(),
        ensures
            final(self).wf(),
            redocked(*old(self), page_shown(old(self).dock@, Tab::Settings), *final(self)),
    {
        show_page(&mut self.dock, Tab::Settings);
    }

    /// Closes the settings, or brings them to the front.
    pub fn toggle_settings(&mut self)
        requires
            old(self).wf(),
        ensures
            final(self).wf(),
            redocked(*old(self), page_toggled(old(self).dock@, Tab::Settings), *final(self)),
    {
        toggle_page(&mut self.dock, Tab::Settings);
    }

    /// Writes a message to the console. An error brings the console to the
    /// front.
    pub fn console_log(&mut self, severity: ConsoleSeverity, context: String, message: String)
        -> (r: Option<SplitRequest>)
        requires
            old(self).wf(),
        ensures
            final(self).wf(),
            message_logged(*old(self), severity, context@, message@, r, *final(self)),
    {
        let entry = entry_now(severity, context, message);
        let ghost e = entry;
        append_entry(&mut self.console, entry);
        assert(self.console@.last() == e);
        proof {
            let all = old(self).console@.push(e);
            assert forall|i: int| 0 <= i < self.console@.len() implies FIRST_SECOND <= (
            #[trigger] self.console@[i]).second <= LAST_SECOND by {
                let k = if all.len() <= CONSOLE_CAPACITY {
                    i
                } else {
                    i + (all.len() - CONSOLE_CAPACITY)
                };
                assert(self.console@[i] == all[k]);
            }
        }
        if severity == ConsoleSeverity::Error {
            self.show_console()
        } else {
            None
        }
    }
}

/// Whether one editor is another in which the plugin tabs were hidden or the
/// hidden ones are to come back. What `done` asks for brings them back.
pub open spec fn tools_toggled(before: HxyApp, done: ToolPanel, after: HxyApp) -> bool {
    &&& after == (HxyApp {
        dock: after.dock,
        hidden_tool_tabs: after.hidden_tool_tabs,
        ..before
    })
    &&& if before.hidden_tool_tabs@.len() > 0 {
        &&& after.dock@ == before.dock@
        &&& after.hidden_tool_tabs@.len() == 0
        &&& done matches ToolPanel::Restore { split, rest } && asks_root_split(
            split,
            DockDir::Right,
            TOOL_PANE_KEEP,
            before.hidden_tool_tabs@[0],
        ) && rest@ == before.hidden_tool_tabs@.drop_first()
    } else {
        &&& after.hidden_tool_tabs@ == tools_of(tab_list(before.dock@))
        &&& lost_tools(before.dock@, after.dock@)
        &&& if tools_of(tab_list(before.dock@)).len() == 0 {
            done is Unchanged && after.dock@ == before.dock@
        } else {
            done is Hidden
        }
    }
}

/// Hides the plugin tabs, or brings the hidden ones back.
pub fn toggle_tools(app: &mut HxyApp) -> (r: ToolPanel)
    requires
        old(app).wf(),
    ensures
        final(app).wf(),
        tools_toggled(*old(app), r, *final(app)),
{
    toggle_tool_panel(&mut app.dock, &mut app.hidden_tool_tabs)
}

fn toggle_tree(list: &mut Vec<Workspace>, i: usize) -> (r: Option<SplitRequest>)
    requires
        i < old(list)@.len(),
        old(list)@[i as int].dock.wf(),
    ensures
        dock_changed(
            old(list)@,
            i as int,
            closed(old(list)@[i as int].dock@, tree_item()),
            final(list)@,
        ),
        final(list)@[i as int].dock.wf(),
        r is None <==> old(list)@[i as int].dock@.holds(tree_item()),
        r matches Some(split) ==> asks_root_split(
            split,
            DockDir::Left,
            VFS_TREE_KEEP,
            tree_item(),
        ),
{
    toggle_workspace_vfs(&mut list[i].dock)
}

/// Whether one editor is another in which the tree panel of the active
/// workspace was toggled.
pub open spec fn tree_toggled(
    before: HxyApp,
    asked: Option<(WorkspaceId, SplitRequest)>,
    after: HxyApp,
) -> bool {
    match active_workspace(before) {
        Some(id) => {
            &&& after == (HxyApp {
                last_active_workspace: Some(id),
                workspaces: after.workspaces,
                ..before
            })
            &&& match workspace_at(before.workspaces@, id) {
                Some(i) => dock_changed(
                    before.workspaces@,
                    i,
                    closed(before.workspaces@[i].dock@, tree_item()),
                    after.workspaces@,
                ) && (asked is None <==> before.workspaces@[i].dock@.holds(tree_item())) && (
                asked matches Some(a) ==> a.0 == id && asks_root_split(
                    a.1,
                    DockDir::Left,
                    VFS_TREE_KEEP,
                    tree_item(),
                )),
                None => after.workspaces == before.workspaces && asked is None,
            }
        },
        None => after == before && asked is None,
    }
}

/// Hides the tree panel of the active workspace, or asks for it.
pub fn toggle_active_tree(app: &mut HxyApp) -> (r: Option<(WorkspaceId, SplitRequest)>)
    requires
        old(app).wf(),
    ensures
        final(app).wf(),
        tree_toggled(*old(app), r, *final(app)),
{
    let id = match active_workspace_id(app) {
        Some(id) => id,
        None => return None,
    };
    match find_workspace(&app.workspaces, id) {
        Some(i) => match toggle_tree(&mut app.workspaces, i) {
            Some(split) => Some((id, split)),
            None => None,
        },
        None => None,
    }
}

/// Whether one editor is another in which the search over all files was
/// toggled: its results are closed, or asked for below everything.
pub open spec fn global_search_toggled(
    before: HxyApp,
    split: Option<SplitRequest>,
    after: HxyApp,
) -> bool {
    let tab = DockTab::Outer(Tab::SearchResults);
    &&& after == (HxyApp { dock: after.dock, global_search: after.global_search, ..before })
    &&& after.dock@ == closed(before.dock@, tab)
    &&& split is None <==> before.dock@.holds(tab)
    &&& split matches Some(s) ==> asks_root_split(s, DockDir::Down, SEARCH_KEEP, tab)
    &&& after.global_search == if before.dock@.holds(tab) {
        before.global_search
    } else {
        GlobalSearchState { open: true, ..before.global_search }
    }
}

/// Closes the results of the search over all files, or asks for them.
pub fn toggle_global_search(app: &mut HxyApp) -> (r: Option<SplitRequest>)
    requires
        old(app).wf(),
    ensures
        final(app).wf(),
        global_search_toggled(*old(app), r, *final(app)),
{
    let r = toggle_below(&mut app.dock, Tab::SearchResults, SEARCH_KEEP);
    if r.is_some() {
        app.global_search.open = true;
    }
    r
}

/// Whether entries of the console tell lines in a context, one each.
pub open spec fn entries_say(
    entries: Seq<ConsoleEntry>,
    context: Seq<char>,
    lines: Seq<LogLine>,
) -> bool {
    &&& entries.len() == lines.len()
    &&& forall|i: int|
        0 <= i < entries.len() ==> (#[trigger] entries[i]).severity == lines[i].severity
            && entries[i].context@ == context && entries[i].message@ == lines[i].message@
}

/// Whether one console is another after lines went to it in order.
pub open spec fn console_got(
    before: Seq<ConsoleEntry>,
    context: Seq<char>,
    lines: Seq<LogLine>,
    after: Seq<ConsoleEntry>,
) -> bool {
    exists|entries: Seq<ConsoleEntry>| #[trigger]
        entries_say(entries, context, lines) && after == tail_of(
            before + entries,
            CONSOLE_CAPACITY as nat,
        )
}

/// Whether one of some lines tells an error.
pub open spec fn has_error(lines: Seq<LogLine>) -> bool {
    exists|i: int| 0 <= i < lines.len() && (#[trigger] lines[i]).severity is Error
}

/// Whether one editor is another after lines went to its console in order. An
/// error among them also brings the console to the front.
pub open spec fn lines_logged(
    before: HxyApp,
    context: Seq<char>,
    lines: Seq<LogLine>,
    split: Option<SplitRequest>,
    after: HxyApp,
) -> bool {
    &&& after == (HxyApp { console: after.console, dock: after.dock, ..before })
    &&& console_got(before.console@, context, lines, after.console@)
    &&& if has_error(lines) {
        console_came(HxyApp { console: after.console, ..before }, split, after)
    } else {
        after.dock == before.dock && split is None
    }
}

fn append_lines(app: &mut HxyApp, context: &String, lines: &Vec<LogLine>) -> (r: bool)
    requires
        old(app).wf(),
    ensures
        final(app).wf(),
        *final(app) == (HxyApp { console: final(app).console, ..*old(app) }),
        console_got(old(app).console@, context@, lines@, final(app).console@),
        r == has_error(lines@),
{
    let ghost before = *app;
    let ghost mut entries: Seq<ConsoleEntry> = seq![];
    let mut failed = false;
    let mut i: usize = 0;
    assert(app.console@ =~= tail_of(before.console@ + entries, CONSOLE_CAPACITY as nat));
    while i < lines.len()
        invariant
            i <= lines@.len(),
            before.wf(),
            app.wf(),
            *app == (HxyApp { console: app.console, ..before }),
            entries_say(entries, context@, lines@.take(i as int)),
            app.console@ == tail_of(before.console@ + entries, CONSOLE_CAPACITY as nat),
            failed == has_error(lines@.take(i as int)),
        decreases lines.len() - i,
    {
        let ghost mid = app.console@;
        let severity = lines[i].severity;
        let entry = entry_now(severity, context.clone(), lines[i].message.clone());
        let ghost e = entry;
        append_entry(&mut app.console, entry);
        proof {
            let all = before.console@ + entries;
            assert(mid.push(e).len() <= CONSOLE_CAPACITY + 1);
            assert((before.console@ + entries.push(e)) =~= all.push(e));
            assert(app.console@ =~= tail_of(all.push(e), CONSOLE_CAPACITY as nat));
            assert forall|k: int| 0 <= k < app.console@.len() implies FIRST_SECOND <= (
            #[trigger] app.console@[k]).second <= LAST_SECOND by {
                let pushed = mid.push(e);
                let d = pushed.len() - app.console@.len();
                assert(app.console@[k] == pushed[k + d]);
            }
            entries = entries.push(e);
            assert(lines@.take(i as int + 1) =~= lines@.take(i as int).push(lines@[i as int]));
            if severity is Error {
                assert(lines@.take(i as int + 1)[i as int].severity is Error);
            } else if failed {
                let k = choose|k: int|
                    0 <= k < i && (#[trigger] lines@.take(i as int)[k]).severity is Error;
                assert(lines@.take(i as int + 1)[k].severity is Error);
            } else {
                assert forall|k: int| 0 <= k < i + 1 implies !((#[trigger] lines@.take(
                    i as int + 1,
                )[k]).severity is Error) by {
                    if k < i {
                        assert(lines@.take(i as int)[k] == lines@.take(i as int + 1)[k]);
                    }
                }
            }
        }
        failed = failed || severity == ConsoleSeverity::Error;
        i = i + 1;
    }
    assert(lines@.take(lines@.len() as int) =~= lines@);
    failed
}

/// Writes lines to the console in order. An error among them brings the console
/// to the front.
pub fn log_lines(app: &mut HxyApp, context: &String, lines: &Vec<LogLine>) -> (r: Option<
    SplitRequest,
>)
    requires
        old(app).wf(),
    ensures
        final(app).wf(),
        lines_logged(*old(app), context@, lines@, r, *final(app)),
{
    if append_lines(app, context, lines) {
        app.show_console()
    } else {
        None
    }
}

/// A message is the last in the console, with its own text and context, and an error
/// brings the console to the front while nothing else moves a tab; the files stay.
pub proof fn law_message_reaches_console(
    before: HxyApp,
    severity: ConsoleSeverity,
    context: Seq<char>,
    message: Seq<char>,
    split: Option<SplitRequest>,
    after: HxyApp,
)
    requires
        message_logged(before, severity, context, message, split, after),
    ensures
        after.console@.len() > 0,
        after.console@.last().message@ == message && after.console@.last().context@ == context
            && after.console@.last().severity == severity,
        before.console@.len() < 2048 ==> after.console@.drop_last() == before.console@,
        after.files == before.files && after.open_tabs == before.open_tabs,
        !(severity is Error) ==> after.dock == before.dock && split is None,
        severity is Error && before.dock@.holds(DockTab::Outer(Tab::Console)) && before.dock@.find(
            DockTab::Outer(Tab::Console),
        ) is Some ==> crate::panes::focused_tab(after.dock@) == Some(DockTab::Outer(Tab::Console))
            && split is None,
        severity is Error && !before.dock@.holds(DockTab::Outer(Tab::Console)) ==> (
        split matches Some(s) && s.dir is Down && s.tabs@ == seq![DockTab::Outer(Tab::Console)]),
{
    if before.dock@.find(DockTab::Outer(Tab::Console)) is Some {
        crate::dock_ops::law_shown_tab_is_in_front(before.dock@, DockTab::Outer(Tab::Console));
    }
    if before.console@.len() < 2048 {
        let entry = after.console@.last();
        assert(logged(before.console@, entry) == before.console@.push(entry));
        assert(before.console@.push(entry).drop_last() =~= before.console@);
    }
}

/// Lines that are logged stand in the console in order, each with its own text and as
/// grave as it is, behind what was there, while there is room for all.
pub proof fn law_lines_reach_console(
    before: HxyApp,
    context: Seq<char>,
    lines: Seq<LogLine>,
    split: Option<SplitRequest>,
    after: HxyApp,
    i: int,
)
    requires
        lines_logged(before, context, lines, split, after),
        before.console@.len() + lines.len() <= 2048,
    ensures
        after.console@.len() == before.console@.len() + lines.len(),
        0 <= i < lines.len() ==> {
            let entry = after.console@[before.console@.len() + i];
            &&& entry.message@ == lines[i].message@ && entry.severity == lines[i].severity
            &&& entry.context@ == context
        },
        (forall|k: int| 0 <= k < lines.len() ==> !((#[trigger] lines[k]).severity is Error))
            ==> after.dock == before.dock && split is None,
{
    let entries = choose|entries: Seq<ConsoleEntry>| #[trigger]
        entries_say(entries, context, lines) && after.console@ == tail_of(
            before.console@ + entries,
            CONSOLE_CAPACITY as nat,
        );
    if 0 <= i < lines.len() {
        assert(after.console@[before.console@.len() + i] == entries[i]);
    }
}

/// A tool's tab that is open is closed by toggling it, and no other tab is; one that is
/// not comes to the front of the tools or is asked for beside the main area.
pub proof fn law_toggled_tool_opens_or_closes(
    before: HxyApp,
    tab: Tab,
    split: Option<SplitRequest>,
    after: HxyApp,
)
    requires
        tool_toggled(before, tab, split, after),
    ensures
        before.dock@.holds(DockTab::Outer(tab)) ==> split is None && after.dock@ == closed(
            before.dock@,
            DockTab::Outer(tab),
        ),
        !before.dock@.holds(DockTab::Outer(tab)) ==> match find_leaf_spec(
            before.dock@,
            LeafKind::Tool,
        ) {
            Some(pos) => split is None && crate::panes::focused_tab(after.dock@) == Some(
                DockTab::Outer(tab),
            ) && (after.dock@.leaf(pos) matches Some(leaf) && leaf.tabs == (before.dock@.leaf(
                pos,
            )->0).tabs.push(DockTab::Outer(tab))),
            None => after.dock@ == before.dock@ && (split matches Some(s) && s.dir is Right
                && s.tabs@ == seq![DockTab::Outer(tab)] && s.at.surface == 0 && s.at.node == 0),
        },
        after.files == before.files,
{
    if !before.dock@.holds(DockTab::Outer(tab)) {
        crate::dock_ops::law_new_tab_joins_pane_of_its_kind(before.dock@, LeafKind::Tool, tab);
    }
}

/// The console and the search results open below everything, are asked for only where
/// they are not open, and are closed where they are.
pub proof fn law_panels_below_open_and_close(
    before: HxyApp,
    console: Option<SplitRequest>,
    with_console: HxyApp,
    search: Option<SplitRequest>,
    with_search: HxyApp,
)
    requires
        console_toggled(before, console, with_console),
        global_search_toggled(before, search, with_search),
    ensures
        before.dock@.holds(DockTab::Outer(Tab::Console)) <==> console is None,
        before.dock@.holds(DockTab::Outer(Tab::SearchResults)) <==> search is None,
        console matches Some(s) ==> s.dir is Down && s.tabs@ == seq![DockTab::Outer(Tab::Console)],
        search matches Some(s) ==> s.dir is Down && s.tabs@ == seq![
            DockTab::Outer(Tab::SearchResults),
        ] && with_search.global_search.open,
        with_console.files == before.files && with_search.files == before.files,
        with_search.global_search.matches == before.global_search.matches
            && with_search.global_search.pattern == before.global_search.pattern,
{
}

/// Hidden tabs come back in the order in which they stood, all of them; without any,
/// every tab of plugins is hidden and every other tab stays.
pub proof fn law_tools_are_hidden_and_come_back(
    before: HxyApp,
    done: ToolPanel,
    after: HxyApp,
    t: DockTab,
)
    requires
        tools_toggled(before, done, after),
    ensures
        before.hidden_tool_tabs@.len() > 0 ==> after.hidden_tool_tabs@.len() == 0 && after.dock@
            == before.dock@ && (done matches ToolPanel::Restore { split, rest } && split.tabs@ + rest@
            == before.hidden_tool_tabs@ && split.dir is Right),
        before.hidden_tool_tabs@.len() == 0 ==> {
            &&& (t matches DockTab::Outer(Tab::Plugins)) || (t matches DockTab::Outer(
                Tab::PluginMount(_),
            )) ==> after.dock@.tabs().count(t) == 0
            &&& !((t matches DockTab::Outer(Tab::Plugins)) || (t matches DockTab::Outer(
                Tab::PluginMount(_),
            ))) ==> after.dock@.tabs().count(t) == before.dock@.tabs().count(t)
        },
        after.files == before.files,
{
    if before.hidden_tool_tabs@.len() > 0 {
        match done {
            ToolPanel::Restore { split, rest } => {
                assert(split.tabs@ + rest@ =~= before.hidden_tool_tabs@);
            },
            _ => {},
        }
    }
}

/// A visualizer comes up by itself after a template ran only where it was open, there is
/// something to show, and the user did not close it.
pub proof fn law_visualizer_follows_template(
    before: HxyApp,
    i: int,
    has_targets: bool,
    r: Option<SplitRequest>,
    after: HxyApp,
)
    requires
        before.wf(),
        0 <= i < before.files@.len(),
        visualizer_followed(before, before.files@[i].id, has_targets, r, after),
    ensures
        !has_targets || !before.files@[i].visualizer_open
            || before.files@[i].visualizer_dismissed ==> after == before && r is None,
        has_targets && before.files@[i].visualizer_open && !before.files@[i].visualizer_dismissed
            ==> tool_came(before, Tab::Visualizer(before.files@[i].id), r, after),
{
    crate::session::lemma_file_at(before.files@, before.files@[i].id, i);
}

} // verus!

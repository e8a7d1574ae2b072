//! What the palette's rows are made from.

use vstd::prelude::*;
use vstd::string::*;
use crate::dock::Dock;
use crate::frame::root_path_of;
use crate::moves::all_tabs;
#[allow(unused_imports)]
use crate::moves::tab_list;
use crate::palette_rows::{FileRow, PanelFlags};
use crate::panes::active_focused;
#[allow(unused_imports)]
use crate::panes::focused_tab;
use crate::session::{find_workspace, HxyApp, OpenFile};
#[allow(unused_imports)]
use crate::session::workspace_at;
use crate::tabs::{is_plugin_item, DockTab, Tab, WorkspaceTab};
#[allow(unused_imports)]
use crate::tabs::plugin_item;
#[allow(unused_imports)]
use crate::tool_pane::tree_item;
#[allow(unused_imports)]
use crate::watching::{root_of, same_text};

verus! {

/// Whether the focused tab is a workspace that shows its tree.
pub open spec fn tree_visible(app: HxyApp) -> bool {
    match focused_tab(app.dock@) {
        Some(DockTab::Outer(Tab::Workspace(id))) => workspace_at(app.workspaces@, id) matches Some(
            w,
        ) && app.workspaces@[w].dock@.holds(tree_item()),
        _ => false,
    }
}

/// Whether a plugin tab is among tabs.
pub open spec fn tools_in(list: Seq<DockTab>) -> bool {
    exists|i: int| 0 <= i < list.len() && plugin_item(#[trigger] list[i])
}

/// Which panels show.
pub open spec fn panels_of(app: HxyApp) -> PanelFlags {
    PanelFlags {
        console: app.dock@.holds(DockTab::Outer(Tab::Console)),
        inspector: app.dock@.holds(DockTab::Outer(Tab::Inspector)),
        plugins: app.dock@.holds(DockTab::Outer(Tab::Plugins)),
        workspace_tree: tree_visible(app),
        tool_panel: app.hidden_tool_tabs@.len() == 0 && tools_in(tab_list(app.dock@)),
    }
}

fn shows_tools(dock: &Dock) -> (r: bool)
    ensures
        r == tools_in(tab_list(dock@)),
{
    let tabs = all_tabs(dock);
    let mut i: usize = 0;
    while i < tabs.len()
        invariant
            i <= tabs@.len(),
            tabs@ == tab_list(dock@),
            forall|j: int| 0 <= j < i ==> !plugin_item(#[trigger] tabs@[j]),
        decreases tabs@.len() - i,
    {
        if is_plugin_item(&tabs[i]) {
            assert(plugin_item(tab_list(dock@)[i as int]));
            return true;
        }
        i = i + 1;
    }
    false
}

/// Tells which panels show.
pub fn panel_flags(app: &HxyApp) -> (r: PanelFlags)
    requires
        app.wf(),
    ensures
        r == panels_of(*app),
{
    let tree = match active_focused(&app.dock) {
        Some(DockTab::Outer(Tab::Workspace(id))) => match find_workspace(&app.workspaces, id) {
            Some(w) => app.workspaces[w].dock.find_tab(
                &DockTab::Inner(WorkspaceTab::VfsTree),
            ).is_some(),
            None => false,
        },
        _ => false,
    };
    PanelFlags {
        console: app.dock.find_tab(&DockTab::Outer(Tab::Console)).is_some(),
        inspector: app.dock.find_tab(&DockTab::Outer(Tab::Inspector)).is_some(),
        plugins: app.dock.find_tab(&DockTab::Outer(Tab::Plugins)).is_some(),
        workspace_tree: tree,
        tool_panel: app.hidden_tool_tabs.len() == 0 && shows_tools(&app.dock),
    }
}

/// Whether a row lists a file, with the directory that it lies in.
pub open spec fn row_lists(row: FileRow, file: OpenFile, parent: Option<String>) -> bool {
    &&& row.id == file.id
    &&& row.name@ == file.display_name@
    &&& row.parent == parent
    &&& same_text(root_of(file), row.path)
}

/// Lists the open files. `parents` are the directories that they lie in.
pub fn file_rows(files: &Vec<OpenFile>, parents: Vec<Option<String>>) -> (r: Vec<FileRow>)
    requires
        parents@.len() == files@.len(),
    ensures
        r@.len() == files@.len(),
        forall|i: int|
            0 <= i < files@.len() ==> row_lists(#[trigger] r@[i], files@[i], parents@[i]),
{
    let ghost all = parents@;
    let mut rest = parents;
    let mut out: Vec<FileRow> = Vec::new();
    let mut i: usize = 0;
    assert(rest@ =~= all.skip(0));
    while i < files.len()
        invariant
            i <= files@.len(),
            all.len() == files@.len(),
            rest@ == all.skip(i as int),
            out@.len() == i,
            forall|j: int| 0 <= j < i ==> row_lists(#[trigger] out@[j], files@[j], all[j]),
        decreases files@.len() - i,
    {
        let parent = rest.remove(0);
        out.push(
            FileRow {
                id: files[i].id,
                name: files[i].display_name.clone(),
                parent,
                path: root_path_of(&files[i]),
            },
        );
        i = i + 1;
        assert(rest@ =~= all.skip(i as int));
    }
    out
}

/// A panel counts as shown exactly where its tab is docked, the tree where the workspace
/// in front shows it, and the tool panel where a tab of plugins is docked and none is
/// hidden.
pub proof fn law_panels_are_told_as_docked(app: HxyApp, w: int, k: int)
    requires
        app.wf(),
    ensures
        panels_of(app).console == app.dock@.holds(DockTab::Outer(Tab::Console)),
        panels_of(app).inspector == app.dock@.holds(DockTab::Outer(Tab::Inspector)),
        panels_of(app).plugins == app.dock@.holds(DockTab::Outer(Tab::Plugins)),
        0 <= w < app.workspaces@.len() && focused_tab(app.dock@) == Some(
            DockTab::Outer(Tab::Workspace(app.workspaces@[w].id)),
        ) ==> panels_of(app).workspace_tree == app.workspaces@[w].dock@.holds(
            DockTab::Inner(crate::tabs::WorkspaceTab::VfsTree),
        ),
        focused_tab(app.dock@) is None ==> !panels_of(app).workspace_tree,
        app.hidden_tool_tabs@.len() > 0 ==> !panels_of(app).tool_panel,
        app.hidden_tool_tabs@.len() == 0 && 0 <= k < tab_list(app.dock@).len() && tab_list(
            app.dock@,
        )[k] == DockTab::Outer(Tab::Plugins) ==> panels_of(app).tool_panel,
{
    if 0 <= w < app.workspaces@.len() {
        crate::session::lemma_workspace_at(app.workspaces@, app.workspaces@[w].id, w);
    }
    if 0 <= k < tab_list(app.dock@).len() && tab_list(app.dock@)[k] == DockTab::Outer(
        Tab::Plugins,
    ) {
        assert(plugin_item(tab_list(app.dock@)[k]));
    }
}

/// A row tells its own file: its id, its name and, for a file on disk, its path.
pub proof fn law_row_tells_its_file(
    row: FileRow,
    file: OpenFile,
    parent: Option<String>,
    path: String,
)
    requires
        row_lists(row, file, parent),
    ensures
        row.id == file.id && row.name@ == file.display_name@ && row.parent == parent,
        file.source == Some(crate::source::TabSource::Filesystem(path)) ==> (row.path matches Some(p)
            && p@ == path@),
        file.source is None ==> row.path is None,
{
    reveal_with_fuel(crate::source::source_view, 2);
    reveal_with_fuel(crate::source::source_root, 2);
}

} // verus!

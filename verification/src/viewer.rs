//! What the tab bars show: titles, which tabs can be closed, and which scroll.

use vstd::prelude::*;
use vstd::string::*;
use crate::editor::EditMode;
use crate::labels::{label_arg, label_args2, Icon, Label};
#[allow(unused_imports)]
use crate::labels::LabelView;
use crate::session::{find_file, find_mount, find_workspace, HxyApp, OpenFile};
#[allow(unused_imports)]
use crate::session::{
    file_at, lemma_file_at, lemma_mount_at, lemma_workspace_at, mount_at, workspace_at,
};
use crate::tabs::{CompareId, FileId, Tab, TabFocus, WorkspaceId, WorkspaceTab};
use crate::text::{join2, numbered};
#[allow(unused_imports)]
use crate::text::dec;

verus! {

/// The title of a tab: icons, a mark for unsaved edits, and a name.
pub struct TabTitle {
    pub icons: Vec<Icon>,
    pub dirty: bool,
    pub label: Label,
}

/// What the title of a tab shows.
pub struct TitleView {
    pub icons: Seq<Icon>,
    pub dirty: bool,
    pub label: LabelView,
}

impl View for TabTitle {
    type V = TitleView;

    open spec fn view(&self) -> TitleView {
        TitleView { icons: self.icons@, dirty: self.dirty, label: self.label@ }
    }
}

/// A title that is a text alone.
pub open spec fn plain_title(label: LabelView) -> TitleView {
    TitleView { icons: seq![], dirty: false, label }
}

pub(crate) fn titled(label: Label) -> (r: TabTitle)
    ensures
        r@ == plain_title(label@),
{
    let icons: Vec<Icon> = Vec::new();
    assert(icons@ =~= seq![]);
    TabTitle { icons, dirty: false, label }
}

/// A title that is an icon and a text.
pub open spec fn icon_title(icon: Icon, label: LabelView) -> TitleView {
    TitleView { icons: seq![icon], dirty: false, label }
}

fn titled_with(icon: Icon, label: Label) -> (r: TabTitle)
    ensures
        r@ == icon_title(icon, label@),
{
    let mut icons: Vec<Icon> = Vec::new();
    icons.push(icon);
    assert(icons@ =~= seq![icon]);
    TabTitle { icons, dirty: false, label }
}

/// The title of a file behind an icon of its tab: a lock where it is read-only,
/// a mark where it has unsaved edits, and its name.
pub open spec fn file_title(lead: Option<Icon>, file: OpenFile) -> TitleView {
    let first = match lead {
        Some(icon) => seq![icon],
        None => seq![],
    };
    TitleView {
        icons: if file.editor.edit_mode is Readonly {
            first.push(Icon::Lock)
        } else {
            first
        },
        dirty: file.editor.spec_is_dirty(),
        label: LabelView::Text(file.display_name@),
    }
}

fn title_of_file(lead: Option<Icon>, file: &OpenFile) -> (r: TabTitle)
    ensures
        r@ == file_title(lead, *file),
{
    let mut icons: Vec<Icon> = Vec::new();
    if let Some(icon) = lead {
        icons.push(icon);
    }
    if file.editor.edit_mode == EditMode::Readonly {
        icons.push(Icon::Lock);
    }
    assert(icons@ =~= file_title(lead, *file).icons);
    TabTitle {
        icons,
        dirty: file.editor.is_dirty(),
        label: Label::Text(file.display_name.clone()),
    }
}

/// The text that stands for something that is gone.
pub open spec fn missing_title(prefix: Seq<char>, id: u64) -> TitleView {
    plain_title(LabelView::Text(prefix + dec(id as nat)))
}

fn title_of_missing(prefix: &str, id: u64) -> (r: TabTitle)
    ensures
        r@ == missing_title(prefix@, id),
{
    titled(Label::Text(numbered(prefix, id)))
}

/// The name of a file, nothing where it is gone.
pub open spec fn name_of(app: HxyApp, id: FileId) -> Seq<char> {
    match file_at(app.files@, id) {
        Some(i) => app.files@[i].display_name@,
        None => seq![],
    }
}

fn find_name(app: &HxyApp, id: FileId) -> (r: String)
    ensures
        r@ == name_of(*app, id),
{
    match find_file(&app.files, id) {
        Some(i) => app.files[i].display_name.clone(),
        None => {
            let none = String::new();
            assert(none@ =~= seq![]);
            none
        },
    }
}

/// The title of a tool for a file.
pub open spec fn tool_title(app: HxyApp, key: Seq<char>, id: FileId) -> TitleView {
    plain_title(LabelView::Args(key, seq![("name"@, name_of(app, id))]))
}

/// The title of a tab of the dock. A comparison is told by the names of its two
/// sides.
pub open spec fn title_view(app: HxyApp, tab: Tab, sides: Option<(String, String)>) -> TitleView {
    match tab {
        Tab::Welcome => plain_title(LabelView::Key("tab-welcome"@)),
        Tab::Settings => plain_title(LabelView::Key("tab-settings"@)),
        Tab::Console => plain_title(LabelView::Key("tab-console"@)),
        Tab::Inspector => plain_title(LabelView::Key("tab-inspector"@)),
        Tab::Plugins => plain_title(LabelView::Key("tab-plugins"@)),
        Tab::Memory => plain_title(LabelView::Key("tab-memory"@)),
        Tab::SearchResults => icon_title(
            Icon::MagnifyingGlass,
            LabelView::Key("tab-search-results"@),
        ),
        Tab::Entropy(id) => tool_title(app, "tab-entropy"@, id),
        Tab::Visualizer(id) => tool_title(app, "tab-visualizer"@, id),
        Tab::Strings(id) => tool_title(app, "tab-strings"@, id),
        Tab::Checksums(id) => tool_title(app, "tab-checksums"@, id),
        Tab::File(id) => match file_at(app.files@, id) {
            Some(i) => file_title(None, app.files@[i]),
            None => missing_title("file-"@, id.0),
        },
        Tab::PluginMount(id) => match mount_at(app.mounts@, id) {
            Some(i) => icon_title(
                Icon::TreeStructure,
                LabelView::Text(app.mounts@[i].display_name@),
            ),
            None => missing_title("mount-"@, id.0),
        },
        Tab::Workspace(id) => match workspace_at(app.workspaces@, id) {
            Some(w) => match file_at(app.files@, app.workspaces@[w].editor_id) {
                Some(i) => file_title(Some(Icon::TreeStructure), app.files@[i]),
                None => missing_title("workspace-"@, id.0),
            },
            None => missing_title("workspace-"@, id.0),
        },
        Tab::Compare(id) => match sides {
            Some((a, b)) => plain_title(
                LabelView::Args("tab-compare-title"@, seq![("a"@, a@), ("b"@, b@)]),
            ),
            None => missing_title("compare-"@, id.0),
        },
    }
}

/// Writes the title of a tab of the dock.
pub fn title(app: &HxyApp, tab: Tab, sides: Option<(String, String)>) -> (r: TabTitle)
    ensures
        r@ == title_view(*app, tab, sides),
{
    match tab {
        Tab::Welcome => titled(Label::Key("tab-welcome")),
        Tab::Settings => titled(Label::Key("tab-settings")),
        Tab::Console => titled(Label::Key("tab-console")),
        Tab::Inspector => titled(Label::Key("tab-inspector")),
        Tab::Plugins => titled(Label::Key("tab-plugins")),
        Tab::Memory => titled(Label::Key("tab-memory")),
        Tab::SearchResults => titled_with(Icon::MagnifyingGlass, Label::Key("tab-search-results")),
        Tab::Entropy(id) => titled(label_arg("tab-entropy", "name", find_name(app, id))),
        Tab::Visualizer(id) => titled(label_arg("tab-visualizer", "name", find_name(app, id))),
        Tab::Strings(id) => titled(label_arg("tab-strings", "name", find_name(app, id))),
        Tab::Checksums(id) => titled(label_arg("tab-checksums", "name", find_name(app, id))),
        Tab::File(id) => match find_file(&app.files, id) {
            Some(i) => title_of_file(None, &app.files[i]),
            None => title_of_missing("file-", id.0),
        },
        Tab::PluginMount(id) => match find_mount(&app.mounts, id) {
            Some(i) => titled_with(
                Icon::TreeStructure,
                Label::Text(app.mounts[i].display_name.clone()),
            ),
            None => title_of_missing("mount-", id.0),
        },
        Tab::Workspace(id) => match find_workspace(&app.workspaces, id) {
            Some(w) => match find_file(&app.files, app.workspaces[w].editor_id) {
                Some(i) => title_of_file(Some(Icon::TreeStructure), &app.files[i]),
                None => title_of_missing("workspace-", id.0),
            },
            None => title_of_missing("workspace-", id.0),
        },
        Tab::Compare(id) => match sides {
            Some((a, b)) => titled(label_args2("tab-compare-title", ("a", a), ("b", b))),
            None => title_of_missing("compare-", id.0),
        },
    }
}

/// The title of a tab inside a workspace.
pub open spec fn inner_title_view(app: HxyApp, editor_id: FileId, tab: WorkspaceTab) -> TitleView {
    match tab {
        WorkspaceTab::Editor => match file_at(app.files@, editor_id) {
            Some(i) => file_title(Some(Icon::House), app.files@[i]),
            None => missing_title("file-"@, editor_id.0),
        },
        WorkspaceTab::VfsTree => icon_title(Icon::TreeStructure, LabelView::Text("VFS"@)),
        WorkspaceTab::Entry(id) => match file_at(app.files@, id) {
            Some(i) => TitleView {
                icons: seq![],
                dirty: app.files@[i].editor.spec_is_dirty(),
                label: LabelView::Text(app.files@[i].display_name@),
            },
            None => missing_title("entry-"@, id.0),
        },
    }
}

/// Writes the title of a tab inside a workspace.
pub fn inner_title(app: &HxyApp, editor_id: FileId, tab: WorkspaceTab) -> (r: TabTitle)
    ensures
        r@ == inner_title_view(*app, editor_id, tab),
{
    match tab {
        WorkspaceTab::Editor => match find_file(&app.files, editor_id) {
            Some(i) => title_of_file(Some(Icon::House), &app.files[i]),
            None => title_of_missing("file-", editor_id.0),
        },
        WorkspaceTab::VfsTree => titled_with(Icon::TreeStructure, Label::Text("VFS".to_owned())),
        WorkspaceTab::Entry(id) => match find_file(&app.files, id) {
            Some(i) => {
                let icons: Vec<Icon> = Vec::new();
                assert(icons@ =~= seq![]);
                TabTitle {
                    icons,
                    dirty: app.files[i].editor.is_dirty(),
                    label: Label::Text(app.files[i].display_name.clone()),
                }
            },
            None => title_of_missing("entry-", id.0),
        },
    }
}

/// Whether a tab of the dock has a cross to close it.
pub open spec fn has_cross(tab: Tab) -> bool {
    tab is File || tab is Console || tab is Inspector || tab is Plugins || tab is Workspace
        || tab is Memory || tab is PluginMount || tab is SearchResults || tab is Entropy
        || tab is Visualizer
}

/// Whether a tab of the dock has a cross to close it.
pub fn closeable(tab: Tab) -> (r: bool)
    ensures
        r == has_cross(tab),
{
    matches!(
        tab,
        Tab::File(_) | Tab::Console | Tab::Inspector | Tab::Plugins | Tab::Workspace(_)
            | Tab::Memory | Tab::PluginMount(_) | Tab::SearchResults | Tab::Entropy(_)
            | Tab::Visualizer(_)
    )
}

/// Whether a tab inside a workspace has a cross to close it: the mounted file's
/// has none.
pub fn inner_closeable(tab: WorkspaceTab) -> (r: bool)
    ensures
        r == !(tab is Editor),
{
    !matches!(tab, WorkspaceTab::Editor)
}

/// Whether the dock gives a tab bars to scroll across and down.
pub open spec fn bars_of(tab: Tab) -> (bool, bool) {
    match tab {
        Tab::File(_) | Tab::Console | Tab::Inspector | Tab::Workspace(_) | Tab::PluginMount(_)
        | Tab::SearchResults | Tab::Entropy(_) | Tab::Visualizer(_) => (false, false),
        Tab::Memory => (false, true),
        _ => (true, true),
    }
}

/// Whether the dock gives a tab bars to scroll across and down. Tabs that
/// scroll by themselves get none.
pub fn scroll_bars(tab: Tab) -> (r: (bool, bool))
    ensures
        r == bars_of(tab),
{
    match tab {
        Tab::File(_) | Tab::Console | Tab::Inspector | Tab::Workspace(_) => (false, false),
        Tab::PluginMount(_) | Tab::SearchResults => (false, false),
        Tab::Entropy(_) | Tab::Visualizer(_) => (false, false),
        Tab::Memory => (false, true),
        _ => (true, true),
    }
}

/// Takes over that a tab of the dock was clicked: its bar has the keys now.
pub fn on_tab_button(app: &mut HxyApp)
    requires
        old(app).wf(),
    ensures
        final(app).wf(),
        *final(app) == (HxyApp { tab_focus: TabFocus::Outer, ..*old(app) }),
{
    app.tab_focus = TabFocus::Outer;
}

/// Takes over that a tab inside a workspace was clicked: its bar has the keys
/// now.
pub fn on_inner_tab_button(app: &mut HxyApp, id: WorkspaceId)
    requires
        old(app).wf(),
    ensures
        final(app).wf(),
        *final(app) == (HxyApp { tab_focus: TabFocus::Workspace(id), ..*old(app) }),
{
    app.tab_focus = TabFocus::Workspace(id);
}

/// What is shown while files are dragged over the window.
pub open spec fn drop_text(hovered: nat, name: Option<Seq<char>>) -> Option<Seq<char>> {
    if hovered == 0 {
        None
    } else if hovered > 1 {
        Some("Drop one file at a time"@)
    } else {
        match name {
            Some(n) => Some("Drop to open\n"@ + n),
            None => Some("Drop to open"@),
        }
    }
}

/// Writes what is shown while files are dragged over the window.
pub fn drop_overlay_text(hovered: usize, name: Option<String>) -> (r: Option<String>)
    ensures
        match (
            drop_text(
                hovered as nat,
                match name {
                    Some(n) => Some(n@),
                    None => None,
                },
            ),
            r,
        ) {
            (Some(a), Some(b)) => a == b@,
            (None, None) => true,
            _ => false,
        },
{
    if hovered == 0 {
        None
    } else if hovered > 1 {
        Some("Drop one file at a time".to_owned())
    } else {
        match name {
            Some(n) => Some(join2("Drop to open\n", n.as_str())),
            None => Some("Drop to open".to_owned()),
        }
    }
}

/// A file's tab shows the name of that very file, a mark exactly where it has unsaved
/// edits, and a lock exactly where it is read-only; so does the tab of a workspace for
/// the file that it mounts.
pub proof fn law_title_tells_state_of_file(app: HxyApp, i: int, w: int)
    requires
        app.wf(),
        0 <= i < app.files@.len(),
    ensures
        ({
            let file = app.files@[i];
            let t = title_view(app, Tab::File(file.id), None);
            &&& t.label == LabelView::Text(file.display_name@)
            &&& t.dirty == file.editor.spec_is_dirty()
            &&& t.icons.contains(Icon::Lock) <==> file.editor.edit_mode is Readonly
            &&& t.icons.len() <= 1
        }),
        0 <= w < app.workspaces@.len() && app.workspaces@[w].editor_id == app.files@[i].id ==> {
            let file = app.files@[i];
            let t = title_view(app, Tab::Workspace(app.workspaces@[w].id), None);
            &&& t.label == LabelView::Text(file.display_name@)
            &&& t.dirty == file.editor.spec_is_dirty()
            &&& t.icons.len() > 0 && t.icons[0] is TreeStructure
            &&& t.icons.contains(Icon::Lock) <==> file.editor.edit_mode is Readonly
        },
{
    let file = app.files@[i];
    lemma_file_at(app.files@, file.id, i);
    let first = Seq::<Icon>::empty();
    assert(first.push(Icon::Lock)[0] == Icon::Lock);
    if 0 <= w < app.workspaces@.len() && app.workspaces@[w].editor_id == file.id {
        lemma_workspace_at(app.workspaces@, app.workspaces@[w].id, w);
        let lead = seq![Icon::TreeStructure];
        assert(lead.push(Icon::Lock)[1] == Icon::Lock);
        assert(lead[0] == Icon::TreeStructure);
    }
}

/// Inside a workspace each file's tab shows the name of that very file and a mark
/// exactly where it has unsaved edits.
pub proof fn law_inner_title_tells_state_of_file(app: HxyApp, i: int, editor_id: FileId)
    requires
        app.wf(),
        0 <= i < app.files@.len(),
    ensures
        ({
            let file = app.files@[i];
            let entry = inner_title_view(app, editor_id, WorkspaceTab::Entry(file.id));
            let mounted = inner_title_view(app, file.id, WorkspaceTab::Editor);
            &&& entry.label == LabelView::Text(file.display_name@) && mounted.label
                == LabelView::Text(file.display_name@)
            &&& entry.dirty == file.editor.spec_is_dirty() && mounted.dirty
                == file.editor.spec_is_dirty()
            &&& mounted.icons.contains(Icon::Lock) <==> file.editor.edit_mode is Readonly
        }),
{
    let file = app.files@[i];
    lemma_file_at(app.files@, file.id, i);
    let lead = seq![Icon::House];
    assert(lead.push(Icon::Lock)[1] == Icon::Lock);
    assert(lead[0] == Icon::House);
}

/// A tool for a file names that file, a comparison its two sides in order, and a
/// plugin's mount that mount.
pub proof fn law_title_names_what_it_shows(
    app: HxyApp,
    i: int,
    m: int,
    a: String,
    b: String,
    c: CompareId,
)
    requires
        app.wf(),
        0 <= i < app.files@.len(),
    ensures
        ({
            let file = app.files@[i];
            let name = seq![("name"@, file.display_name@)];
            &&& title_view(app, Tab::Entropy(file.id), None).label == LabelView::Args(
                "tab-entropy"@,
                name,
            )
            &&& title_view(app, Tab::Visualizer(file.id), None).label == LabelView::Args(
                "tab-visualizer"@,
                name,
            )
            &&& title_view(app, Tab::Strings(file.id), None).label == LabelView::Args(
                "tab-strings"@,
                name,
            )
            &&& title_view(app, Tab::Checksums(file.id), None).label == LabelView::Args(
                "tab-checksums"@,
                name,
            )
        }),
        title_view(app, Tab::Compare(c), Some((a, b))).label == LabelView::Args(
            "tab-compare-title"@,
            seq![("a"@, a@), ("b"@, b@)],
        ),
        0 <= m < app.mounts@.len() ==> title_view(
            app,
            Tab::PluginMount(app.mounts@[m].id),
            None,
        ).label == LabelView::Text(app.mounts@[m].display_name@),
{
    lemma_file_at(app.files@, app.files@[i].id, i);
    if 0 <= m < app.mounts@.len() {
        lemma_mount_at(app.mounts@, app.mounts@[m].id, m);
    }
}

/// Every tab can be closed by its cross but the two pages, strings, checksums and
/// comparisons; tabs that scroll by themselves get no bars.
pub proof fn law_tabs_with_a_cross(tab: Tab)
    ensures
        !has_cross(tab) <==> tab is Welcome || tab is Settings || tab is Strings || tab is Checksums
            || tab is Compare,
        tab is File || tab is Console || tab is Inspector || tab is Workspace || tab is PluginMount
            || tab is SearchResults || tab is Entropy || tab is Visualizer <==> bars_of(tab) == (
        false, false),
        tab is Memory <==> bars_of(tab) == (false, true),
{
}

/// Nothing is shown while no file is dragged; one file is named where its name is known;
/// several are refused.
pub proof fn law_one_file_is_dropped(hovered: nat, name: Option<Seq<char>>)
    ensures
        hovered == 0 <==> drop_text(hovered, name) is None,
        hovered == 1 ==> drop_text(hovered, name) == Some(
            match name {
                Some(n) => "Drop to open\n"@ + n,
                None => "Drop to open"@,
            },
        ),
        hovered > 1 ==> drop_text(hovered, name) == Some("Drop one file at a time"@),
{
}

} // verus!

//! Identifiers and the kinds of tabs that a dock holds.

use vstd::prelude::*;

verus! {

/// Identity of an open file.
#[derive(Clone, Copy, Debug, PartialEq, Eq, Hash, Structural)]
pub struct FileId(pub u64);

/// Identity of a file-rooted workspace.
#[derive(Clone, Copy, Debug, PartialEq, Eq, Hash, Structural)]
pub struct WorkspaceId(pub u64);

/// Identity of a plugin mount.
#[derive(Clone, Copy, Debug, PartialEq, Eq, Hash, Structural)]
pub struct MountId(pub u64);

/// Identity of a two-file comparison.
#[derive(Clone, Copy, Debug, PartialEq, Eq, Hash, Structural)]
pub struct CompareId(pub u64);

impl FileId {
    pub fn new(id: u64) -> (r: Self)
        ensures
            r == FileId(id),
    {
        FileId(id)
    }

    pub fn get(self) -> (r: u64)
        ensures
            r == self.0,
    {
        self.0
    }
}

/// A tab of the outer dock.
#[derive(Clone, Copy, Debug, PartialEq, Eq, Structural)]
pub enum Tab {
    Welcome,
    Settings,
    Console,
    Inspector,
    Plugins,
    Memory,
    SearchResults,
    File(FileId),
    Workspace(WorkspaceId),
    PluginMount(MountId),
    Entropy(FileId),
    Visualizer(FileId),
    Strings(FileId),
    Checksums(FileId),
    Compare(CompareId),
}

/// A tab of a workspace's inner dock.
#[derive(Clone, Copy, Debug, PartialEq, Eq, Structural)]
pub enum WorkspaceTab {
    Editor,
    VfsTree,
    Entry(FileId),
}

/// What a dock holds. Outer and inner docks share one item type so that the
/// docking rules are stated once.
#[derive(Clone, Copy, Debug, PartialEq, Eq, Structural)]
pub enum DockTab {
    Outer(Tab),
    Inner(WorkspaceTab),
}

/// Which tab bar the cycling shortcut drives: the outer dock's, or that of
/// one workspace.
#[derive(Clone, Copy, Debug, PartialEq, Eq, Structural)]
pub enum TabFocus {
    Outer,
    Workspace(WorkspaceId),
}

/// Where a freshly opened file goes.
#[derive(Clone, Copy, Debug, PartialEq, Eq, Structural)]
pub enum OpenTarget {
    Toplevel,
    Workspace(WorkspaceId),
}

/// Tabs that live in the shared tool pane on the right.
pub open spec fn tool_tab(t: Tab) -> bool {
    t is Plugins || t is PluginMount || t is Inspector || t is Memory || t is Entropy
        || t is Strings || t is Checksums || t is Visualizer
}

/// Tabs of the main editing area: file buffers and the two static pages that
/// share a leaf with them.
pub open spec fn content_tab(t: Tab) -> bool {
    t is File || t is Welcome || t is Settings
}

/// Tabs that live in the shared tool pane in a browser: the console too.
pub open spec fn web_tool_tab(t: Tab) -> bool {
    tool_tab(t) || t is Console
}

/// Whether a dock item is a tool tab of the outer dock in a browser.
pub open spec fn web_tool_item(t: DockTab) -> bool {
    t matches DockTab::Outer(tab) && web_tool_tab(tab)
}

/// Whether a dock item is a tool tab of the outer dock.
pub open spec fn tool_item(t: DockTab) -> bool {
    t matches DockTab::Outer(tab) && tool_tab(tab)
}

/// Tabs that are hidden and shown together: the plugin manager and what plugins
/// mount.
pub open spec fn plugin_tab(t: Tab) -> bool {
    t is Plugins || t is PluginMount
}

/// Whether a dock item is a plugin tab of the outer dock.
pub open spec fn plugin_item(t: DockTab) -> bool {
    t matches DockTab::Outer(tab) && plugin_tab(tab)
}

/// Whether a dock item is a content tab of the outer dock.
pub open spec fn content_item(t: DockTab) -> bool {
    t matches DockTab::Outer(tab) && content_tab(tab)
}

/// The tabs that are hidden together all belong to the tool pane.
pub proof fn law_plugin_tabs_are_tools(t: Tab)
    ensures
        plugin_tab(t) ==> tool_tab(t),
{
}

/// No tab is both a tool and content.
pub proof fn law_tool_and_content_disjoint(t: Tab)
    ensures
        !(tool_tab(t) && content_tab(t)),
{
}

/// Whether the tab belongs to the shared tool pane.
pub fn is_tool_tab(t: &Tab) -> (r: bool)
    ensures
        r == tool_tab(*t),
{
    matches!(
        t,
        Tab::Plugins | Tab::PluginMount(_) | Tab::Inspector | Tab::Memory | Tab::Entropy(_)
            | Tab::Strings(_) | Tab::Checksums(_) | Tab::Visualizer(_)
    )
}

/// Whether the tab belongs to the editing area.
pub fn is_content_tab(t: &Tab) -> (r: bool)
    ensures
        r == content_tab(*t),
{
    matches!(t, Tab::File(_) | Tab::Welcome | Tab::Settings)
}

pub(crate) fn is_tool_item(t: &DockTab) -> (r: bool)
    ensures
        r == tool_item(*t),
{
    match t {
        DockTab::Outer(tab) => is_tool_tab(tab),
        DockTab::Inner(_) => false,
    }
}

pub(crate) fn is_web_tool_tab(t: &Tab) -> (r: bool)
    ensures
        r == web_tool_tab(*t),
{
    is_tool_tab(t) || matches!(t, Tab::Console)
}

pub(crate) fn is_web_tool_item(t: &DockTab) -> (r: bool)
    ensures
        r == web_tool_item(*t),
{
    match t {
        DockTab::Outer(tab) => is_web_tool_tab(tab),
        DockTab::Inner(_) => false,
    }
}

pub(crate) fn is_plugin_item(t: &DockTab) -> (r: bool)
    ensures
        r == plugin_item(*t),
{
    matches!(t, DockTab::Outer(Tab::Plugins) | DockTab::Outer(Tab::PluginMount(_)))
}

pub(crate) fn is_content_item(t: &DockTab) -> (r: bool)
    ensures
        r == content_item(*t),
{
    match t {
        DockTab::Outer(tab) => is_content_tab(tab),
        DockTab::Inner(_) => false,
    }
}

/// The tool pane holds plugins, mounts, the inspector, memory, entropy, strings,
/// checksums and visualizers, in a browser the console too; files and the two pages are
/// content; workspaces, comparisons and search results are neither.
pub proof fn law_each_tab_has_its_pane(id: FileId, w: WorkspaceId, m: MountId, c: CompareId)
    ensures
        tool_tab(Tab::Plugins) && tool_tab(Tab::PluginMount(m)) && tool_tab(Tab::Inspector)
            && tool_tab(Tab::Memory) && tool_tab(Tab::Entropy(id)) && tool_tab(Tab::Strings(id))
            && tool_tab(Tab::Checksums(id)) && tool_tab(Tab::Visualizer(id)),
        content_tab(Tab::File(id)) && content_tab(Tab::Welcome) && content_tab(Tab::Settings),
        !tool_tab(Tab::Console) && web_tool_tab(Tab::Console),
        !content_tab(Tab::Workspace(w)) && !tool_tab(Tab::Workspace(w)) && !web_tool_tab(
            Tab::Workspace(w),
        ),
        !content_tab(Tab::Compare(c)) && !tool_tab(Tab::Compare(c)) && !content_tab(
            Tab::SearchResults,
        ) && !tool_tab(Tab::SearchResults) && !content_tab(Tab::Console),
        plugin_tab(Tab::Plugins) && plugin_tab(Tab::PluginMount(m)) && !plugin_tab(
            Tab::Inspector,
        ) && !plugin_tab(Tab::Visualizer(id)),
{
}

} // verus!

//! The command palette: its modes, what picking a row asks for, and when it
//! opens and closes.

use vstd::prelude::*;
use vstd::string::*;
use crate::copy::CopyKind;
use crate::labels::{Icon, Label, Shortcut};
#[allow(unused_imports)]
use crate::labels::LabelView;
use crate::source::TabSource;
#[allow(unused_imports)]
use crate::source::SourceView;
use crate::tabs::{FileId, Tab};

verus! {

/// What the palette lists.
#[derive(Clone, Copy, Debug, PartialEq, Eq, Structural)]
pub enum Mode {
    /// Commands, open files, and the ways into the other modes.
    Main,
    /// Open files alone.
    QuickOpen,
    /// Templates to run.
    Templates,
    /// Installed templates to remove.
    Uninstall,
    /// Installed plugins to remove.
    UninstallPlugin,
    /// Files that were open before.
    Recent,
    /// Asks for an offset to go to.
    GoToOffset,
    /// Asks for an address to go to.
    GoToAddress,
    /// Asks for a number of bytes to select.
    SelectFromOffset,
    /// Asks for a range to select.
    SelectRange,
    /// Asks for the number of columns of one file.
    SetColumnsLocal,
    /// Asks for the number of columns of every file.
    SetColumnsGlobal,
    /// Asks for the address of a file's first byte.
    SetVirtualBase,
    /// Asks for the first file of a comparison.
    CompareSideA,
    /// Asks for the second file of a comparison.
    CompareSideB,
    /// Commands that a plugin answered with.
    PluginCascade,
    /// A question that a plugin asks.
    PluginPrompt,
}

impl Mode {
    /// One level up, or nothing at the root. Every other mode is reached from
    /// the root.
    pub open spec fn spec_parent(self) -> Option<Mode> {
        if self is Main {
            None
        } else {
            Some(Mode::Main)
        }
    }

    #[verifier::when_used_as_spec(spec_parent)]
    pub fn parent(self) -> (r: Option<Self>)
        ensures
            r == self.spec_parent(),
    {
        match self {
            Mode::Main => None,
            _ => Some(Mode::Main),
        }
    }

    /// Whether what is typed is an argument rather than a search, so that the
    /// rows must not be filtered by it.
    pub open spec fn spec_bypass_filter(self) -> bool {
        self is GoToOffset || self is GoToAddress || self is SelectFromOffset
            || self is SelectRange || self is SetColumnsLocal || self is SetColumnsGlobal
            || self is SetVirtualBase || self is PluginPrompt
    }

    pub fn bypass_filter(self) -> (r: bool)
        ensures
            r == self.spec_bypass_filter(),
    {
        matches!(
            self,
            Mode::GoToOffset | Mode::GoToAddress | Mode::SelectFromOffset | Mode::SelectRange
                | Mode::SetColumnsLocal | Mode::SetColumnsGlobal | Mode::SetVirtualBase
                | Mode::PluginPrompt
        )
    }

    /// Key of the hint that stands in the empty input.
    pub open spec fn hint(self) -> Seq<char> {
        match self {
            Mode::Main => "palette-hint-main"@,
            Mode::QuickOpen => "palette-hint-quick-open"@,
            Mode::Templates => "palette-hint-templates"@,
            Mode::Uninstall => "palette-hint-uninstall"@,
            Mode::UninstallPlugin => "palette-hint-uninstall-plugin"@,
            Mode::Recent => "palette-hint-recent"@,
            Mode::GoToOffset => "palette-hint-go-to-offset"@,
            Mode::GoToAddress => "palette-hint-go-to-address"@,
            Mode::SelectFromOffset => "palette-hint-select-from-offset"@,
            Mode::SelectRange => "palette-hint-select-range"@,
            Mode::SetColumnsLocal => "palette-hint-set-columns-local"@,
            Mode::SetColumnsGlobal => "palette-hint-set-columns-global"@,
            Mode::SetVirtualBase => "palette-hint-set-virtual-base"@,
            Mode::CompareSideA => "palette-hint-compare-a"@,
            Mode::CompareSideB => "palette-hint-compare-b"@,
            Mode::PluginCascade => "palette-hint-plugin-cascade"@,
            Mode::PluginPrompt => "palette-hint-plugin-prompt"@,
        }
    }

    pub fn hint_key(self) -> (r: &'static str)
        ensures
            r@ == self.hint(),
    {
        match self {
            Mode::Main => "palette-hint-main",
            Mode::QuickOpen => "palette-hint-quick-open",
            Mode::Templates => "palette-hint-templates",
            Mode::Uninstall => "palette-hint-uninstall",
            Mode::UninstallPlugin => "palette-hint-uninstall-plugin",
            Mode::Recent => "palette-hint-recent",
            Mode::GoToOffset => "palette-hint-go-to-offset",
            Mode::GoToAddress => "palette-hint-go-to-address",
            Mode::SelectFromOffset => "palette-hint-select-from-offset",
            Mode::SelectRange => "palette-hint-select-range",
            Mode::SetColumnsLocal => "palette-hint-set-columns-local",
            Mode::SetColumnsGlobal => "palette-hint-set-columns-global",
            Mode::SetVirtualBase => "palette-hint-set-virtual-base",
            Mode::CompareSideA => "palette-hint-compare-a",
            Mode::CompareSideB => "palette-hint-compare-b",
            Mode::PluginCascade => "palette-hint-plugin-cascade",
            Mode::PluginPrompt => "palette-hint-plugin-prompt",
        }
    }
}

/// Commands of the palette.
#[derive(Clone, Copy, Debug, PartialEq, Eq, Structural)]
pub enum PaletteCommand {
    NewFile,
    OpenFile,
    SaveAsDownload,
    ReopenClosedTab,
    /// Mounts the active file as an archive.
    BrowseArchive,
    ToggleWorkspaceVfs,
    ToggleToolPanel,
    CloseToolPane,
    ToggleConsole,
    ToggleInspector,
    TogglePlugins,
    ToggleMemory,
    ToggleSettings,
    ToggleVim,
    Undo,
    Redo,
    Paste,
    PasteAsHex,
    SplitRight,
    SplitLeft,
    SplitUp,
    SplitDown,
    MergeRight,
    MergeLeft,
    MergeUp,
    MergeDown,
    MoveTabRight,
    MoveTabLeft,
    MoveTabUp,
    MoveTabDown,
    /// Moves the tab to a pane that is pointed out.
    MoveTabVisual,
    /// Merges into a pane that is pointed out.
    MergeVisual,
    /// Focuses a pane that is pointed out.
    FocusPane,
    ToggleEditMode,
    /// Copies the caret's offset.
    CopyCaretOffset,
    /// Copies the caret's address.
    CopyCaretAddress,
    /// Copies first byte, last byte and length of the selection.
    CopySelectionRange,
    /// Copies the length of the selection.
    CopySelectionLength,
    /// Copies the length of the file.
    CopyFileLength,
    FindStringsWholeFile,
    FindStringsSelection,
    FindStringsWithOptions,
    CalculateChecksumsWholeFile,
    CalculateChecksumsSelection,
    ComputeEntropy,
    ShowEntropy,
    ToggleEntropy,
    CompareFiles,
    JumpNextField,
    JumpPrevField,
}

/// Whether a number of columns is meant for one file or for all.
#[derive(Clone, Copy, Debug, PartialEq, Eq, Structural)]
pub enum ColumnScope {
    Local,
    Global,
}

/// A side of a comparison.
#[derive(Clone, Copy, Debug, PartialEq, Eq, Structural)]
pub enum CompareSide {
    A,
    B,
}

/// What picking a row asks for.
pub enum Action {
    InvokeCommand(PaletteCommand),
    FocusFile(FileId),
    FocusTab(Tab),
    RunTemplate(String),
    SwitchMode(Mode),
    InstallTemplate,
    UninstallTemplate(String),
    UninstallPlugin(String),
    /// Copies the selection in a format.
    Copy(CopyKind),
    OpenRecent(String),
    /// Moves the caret to an offset.
    GoToOffset(u64),
    SetSelection { start: u64, end_exclusive: u64 },
    SetColumns { scope: ColumnScope, count: u16 },
    SetVirtualBase(Option<u64>),
    InvokePluginCommand { plugin_name: String, command_id: String },
    RespondToPlugin { plugin_name: String, command_id: String, answer: String },
    CompareSelectSource { side: CompareSide, source: TabSource },
    /// Nothing, for rows that only tell something.
    NoOp,
}

/// What an action asks for.
pub enum ActionView {
    InvokeCommand(PaletteCommand),
    FocusFile(FileId),
    FocusTab(Tab),
    RunTemplate(Seq<char>),
    SwitchMode(Mode),
    InstallTemplate,
    UninstallTemplate(Seq<char>),
    UninstallPlugin(Seq<char>),
    Copy(CopyKind),
    OpenRecent(Seq<char>),
    GoToOffset(u64),
    SetSelection(u64, u64),
    SetColumns(ColumnScope, u16),
    SetVirtualBase(Option<u64>),
    InvokePluginCommand(Seq<char>, Seq<char>),
    RespondToPlugin(Seq<char>, Seq<char>, Seq<char>),
    CompareSelectSource(CompareSide, SourceView),
    NoOp,
}

impl View for Action {
    type V = ActionView;

    open spec fn view(&self) -> ActionView {
        match *self {
            Action::InvokeCommand(c) => ActionView::InvokeCommand(c),
            Action::FocusFile(id) => ActionView::FocusFile(id),
            Action::FocusTab(t) => ActionView::FocusTab(t),
            Action::RunTemplate(p) => ActionView::RunTemplate(p@),
            Action::SwitchMode(m) => ActionView::SwitchMode(m),
            Action::InstallTemplate => ActionView::InstallTemplate,
            Action::UninstallTemplate(p) => ActionView::UninstallTemplate(p@),
            Action::UninstallPlugin(p) => ActionView::UninstallPlugin(p@),
            Action::Copy(k) => ActionView::Copy(k),
            Action::OpenRecent(p) => ActionView::OpenRecent(p@),
            Action::GoToOffset(at) => ActionView::GoToOffset(at),
            Action::SetSelection { start, end_exclusive } => ActionView::SetSelection(
                start,
                end_exclusive,
            ),
            Action::SetColumns { scope, count } => ActionView::SetColumns(scope, count),
            Action::SetVirtualBase(base) => ActionView::SetVirtualBase(base),
            Action::InvokePluginCommand { plugin_name, command_id } =>
                ActionView::InvokePluginCommand(plugin_name@, command_id@),
            Action::RespondToPlugin { plugin_name, command_id, answer } =>
                ActionView::RespondToPlugin(plugin_name@, command_id@, answer@),
            Action::CompareSelectSource { side, source } => ActionView::CompareSelectSource(
                side,
                source@,
            ),
            Action::NoOp => ActionView::NoOp,
        }
    }
}

/// A row of the palette.
pub struct Entry {
    pub label: Label,
    pub subtitle: Option<Label>,
    pub icon: Option<Icon>,
    /// An icon of the row's own, which wins over the other.
    pub own_icon: Option<String>,
    pub shortcut: Option<Shortcut>,
    pub disabled: bool,
    pub action: Action,
}

/// What a row shows and asks for.
pub struct EntryView {
    pub label: LabelView,
    pub subtitle: Option<LabelView>,
    pub icon: Option<Icon>,
    pub own_icon: Option<Seq<char>>,
    pub shortcut: Option<Shortcut>,
    pub disabled: bool,
    pub action: ActionView,
}

impl View for Entry {
    type V = EntryView;

    open spec fn view(&self) -> EntryView {
        EntryView {
            label: self.label@,
            subtitle: match self.subtitle {
                Some(l) => Some(l@),
                None => None,
            },
            icon: self.icon,
            own_icon: match self.own_icon {
                Some(s) => Some(s@),
                None => None,
            },
            shortcut: self.shortcut,
            disabled: self.disabled,
            action: self.action@,
        }
    }
}

impl EntryView {
    /// A plain row.
    pub open spec fn new(label: LabelView, action: ActionView) -> EntryView {
        EntryView {
            label,
            subtitle: None,
            icon: None,
            own_icon: None,
            shortcut: None,
            disabled: false,
            action,
        }
    }

    /// A row for the message of a key, with an icon.
    pub open spec fn key(key: Seq<char>, icon: Icon, action: ActionView) -> EntryView {
        EntryView::new(LabelView::Key(key), action).icon(icon)
    }

    /// A row for a command with an icon.
    pub open spec fn command(key: Seq<char>, icon: Icon, command: PaletteCommand) -> EntryView {
        EntryView::key(key, icon, ActionView::InvokeCommand(command))
    }

    /// A row that leads into a mode.
    pub open spec fn into_mode(key: Seq<char>, icon: Icon, mode: Mode) -> EntryView {
        EntryView::key(key, icon, ActionView::SwitchMode(mode))
    }

    pub open spec fn icon(self, icon: Icon) -> EntryView {
        EntryView { icon: Some(icon), ..self }
    }

    pub open spec fn own_icon(self, icon: Option<Seq<char>>) -> EntryView {
        EntryView { own_icon: icon, ..self }
    }

    pub open spec fn subtitle(self, label: LabelView) -> EntryView {
        EntryView { subtitle: Some(label), ..self }
    }

    pub open spec fn shortcut(self, shortcut: Shortcut) -> EntryView {
        EntryView { shortcut: Some(shortcut), ..self }
    }

    pub open spec fn disabled(self, disabled: bool) -> EntryView {
        EntryView { disabled, ..self }
    }
}

impl Entry {
    pub fn new(label: Label, action: Action) -> (r: Entry)
        ensures
            r@ == EntryView::new(label@, action@),
    {
        Entry {
            label,
            subtitle: None,
            icon: None,
            own_icon: None,
            shortcut: None,
            disabled: false,
            action,
        }
    }

    pub fn key(key: &'static str, icon: Icon, action: Action) -> (r: Entry)
        ensures
            r@ == EntryView::key(key@, icon, action@),
    {
        Entry::new(Label::Key(key), action).with_icon(icon)
    }

    pub fn command(key: &'static str, icon: Icon, command: PaletteCommand) -> (r: Entry)
        ensures
            r@ == EntryView::command(key@, icon, command),
    {
        Entry::key(key, icon, Action::InvokeCommand(command))
    }

    pub fn into_mode(key: &'static str, icon: Icon, mode: Mode) -> (r: Entry)
        ensures
            r@ == EntryView::into_mode(key@, icon, mode),
    {
        Entry::key(key, icon, Action::SwitchMode(mode))
    }

    pub fn with_icon(self, icon: Icon) -> (r: Entry)
        ensures
            r@ == self@.icon(icon),
    {
        Entry { icon: Some(icon), ..self }
    }

    pub fn with_own_icon(self, icon: Option<String>) -> (r: Entry)
        ensures
            r@ == self@.own_icon(
                match icon {
                    Some(s) => Some(s@),
                    None => None,
                },
            ),
    {
        Entry { own_icon: icon, ..self }
    }

    pub fn with_subtitle(self, label: Label) -> (r: Entry)
        ensures
            r@ == self@.subtitle(label@),
    {
        Entry { subtitle: Some(label), ..self }
    }

    pub fn with_shortcut(self, shortcut: Shortcut) -> (r: Entry)
        ensures
            r@ == self@.shortcut(shortcut),
    {
        Entry { shortcut: Some(shortcut), ..self }
    }

    pub fn with_disabled(self, disabled: bool) -> (r: Entry)
        ensures
            r@ == self@.disabled(disabled),
    {
        Entry { disabled, ..self }
    }
}

/// What rows show and ask for.
pub open spec fn rows_view(rows: Seq<Entry>) -> Seq<EntryView> {
    rows.map_values(|e: Entry| e@)
}

/// Appends a row.
pub fn put(out: &mut Vec<Entry>, row: Entry)
    ensures
        rows_view(final(out)@) == rows_view(old(out)@).push(row@),
{
    out.push(row);
    assert(rows_view(out@) =~= rows_view(old(out)@).push(row@));
}

/// A command that a plugin offers.
pub struct PluginCommand {
    pub id: String,
    pub label: String,
    pub subtitle: Option<String>,
    pub icon: Option<String>,
}

/// Commands that a plugin answered with.
pub struct PluginCascade {
    pub plugin_name: String,
    pub commands: Vec<PluginCommand>,
}

/// A question that a plugin asks.
pub struct PluginPrompt {
    pub plugin_name: String,
    pub command_id: String,
    pub title: String,
}

/// The palette.
pub struct PaletteState {
    pub mode: Mode,
    pub open: bool,
    pub query: String,
    /// The row that is selected.
    pub selected: usize,
    /// The first file of a comparison, once it is picked.
    pub compare_first: Option<TabSource>,
    pub plugin_cascade: Option<PluginCascade>,
    pub plugin_prompt: Option<PluginPrompt>,
}

/// Whether the palette shows a mode afresh: open, nothing typed, the first
/// row selected, and the rest as it was.
pub open spec fn opened_at(before: PaletteState, mode: Mode, after: PaletteState) -> bool {
    &&& after == (PaletteState { mode, open: true, query: after.query, selected: 0, ..before })
    &&& after.query@.len() == 0
}

/// Whether the palette was closed and is otherwise as it was.
pub open spec fn closed_now(before: PaletteState, after: PaletteState) -> bool {
    after == (PaletteState { open: false, ..before })
}

impl PaletteState {
    /// A palette that is closed.
    pub fn new() -> (r: PaletteState)
        ensures
            r.mode is Main,
            !r.open,
            r.query@.len() == 0,
            r.selected == 0,
            r.compare_first is None,
            r.plugin_cascade is None,
            r.plugin_prompt is None,
    {
        PaletteState {
            mode: Mode::Main,
            open: false,
            query: String::new(),
            selected: 0,
            compare_first: None,
            plugin_cascade: None,
            plugin_prompt: None,
        }
    }

    /// Opens the palette in a mode.
    pub fn open_at(&mut self, mode: Mode)
        ensures
            opened_at(*old(self), mode, *final(self)),
    {
        self.mode = mode;
        self.open = true;
        self.query = String::new();
        self.selected = 0;
    }

    /// Closes the palette.
    pub fn close(&mut self)
        ensures
            closed_now(*old(self), *final(self)),
    {
        self.open = false;
    }

    pub fn is_open(&self) -> (r: bool)
        ensures
            r == self.open,
    {
        self.open
    }
}

/// How the palette was left without a pick.
#[derive(Clone, Copy, Debug, PartialEq, Eq, Structural)]
pub enum DismissReason {
    /// A click beside it.
    Backdrop,
    /// A key such as Escape.
    Key,
}

/// How the user left the palette.
pub enum Outcome {
    Picked(Action),
    Dismissed(DismissReason),
}

/// Whether the palette was left without a pick.
pub open spec fn palette_left(
    before: PaletteState,
    reason: DismissReason,
    pops_to_parent: bool,
    after: PaletteState,
) -> bool {
    &&& reason is Key && pops_to_parent && !(before.mode is Main) ==> opened_at(
        before,
        Mode::Main,
        after,
    )
    &&& !(reason is Key && pops_to_parent && !(before.mode is Main)) ==> closed_now(
        before,
        after,
    )
}

/// Leaves the palette without a pick. A click beside it closes it; a key goes
/// one level up where the user wants that and there is one, and closes it
/// otherwise.
pub fn dismiss_palette(palette: &mut PaletteState, reason: DismissReason, pops_to_parent: bool)
    ensures
        palette_left(*old(palette), reason, pops_to_parent, *final(palette)),
{
    match reason {
        DismissReason::Backdrop => palette.close(),
        DismissReason::Key => match (pops_to_parent, palette.mode.parent()) {
            (true, Some(parent)) => palette.open_at(parent),
            _ => palette.close(),
        },
    }
}

/// The mode after leaving the palette by a key `steps` times, going up
/// wherever there is a level above; nothing once it is closed.
pub open spec fn after_escapes(mode: Mode, steps: nat) -> Option<Mode>
    decreases steps,
{
    if steps == 0 {
        Some(mode)
    } else {
        match mode.spec_parent() {
            Some(parent) => after_escapes(parent, (steps - 1) as nat),
            None => None,
        }
    }
}

/// Two presses of the key leave the palette from any mode.
pub proof fn law_escape_leaves(mode: Mode)
    ensures
        after_escapes(mode, 2) is None,
{
    reveal_with_fuel(after_escapes, 3);
}

/// Whether the palette was opened at its root, or closed.
pub open spec fn palette_toggled(
    before: PaletteState,
    opened: bool,
    after: PaletteState,
) -> bool {
    &&& opened == !before.open
    &&& opened ==> opened_at(before, Mode::Main, after)
    &&& !opened ==> closed_now(before, after)
}

/// Opens the palette at its root, or closes it where it is open. Returns
/// whether it was opened, in which case a pane must not be picked at the same
/// time.
pub fn toggle_palette(palette: &mut PaletteState) -> (opened: bool)
    ensures
        palette_toggled(*old(palette), opened, *final(palette)),
{
    if palette.is_open() {
        palette.close();
        false
    } else {
        palette.open_at(Mode::Main);
        true
    }
}

/// A palette that is opened shows its mode with nothing typed and the first row
/// selected.
pub proof fn law_opened_palette_is_fresh(before: PaletteState, mode: Mode, after: PaletteState)
    requires
        opened_at(before, mode, after),
    ensures
        after.open && after.mode == mode && after.query@.len() == 0 && after.selected == 0,
        after.compare_first == before.compare_first,
{
}

/// The shortcut opens the palette at its root where it is closed and closes it where it
/// is open.
pub proof fn law_toggle_opens_and_closes(before: PaletteState, opened: bool, after: PaletteState)
    requires
        palette_toggled(before, opened, after),
    ensures
        after.open == !before.open,
        opened == after.open,
        after.open ==> after.mode is Main && after.query@.len() == 0,
{
}

/// A click beside the palette closes it. A key goes back to the root where the user wants
/// that and the palette is not there yet, and closes it otherwise.
pub proof fn law_key_goes_up_or_closes(
    before: PaletteState,
    reason: DismissReason,
    pops_to_parent: bool,
    after: PaletteState,
)
    requires
        palette_left(before, reason, pops_to_parent, after),
    ensures
        reason is Backdrop ==> !after.open,
        reason is Key && !pops_to_parent ==> !after.open,
        reason is Key && before.mode is Main ==> !after.open,
        reason is Key && pops_to_parent && !(before.mode is Main) ==> after.open && after.mode
            is Main && after.query@.len() == 0,
{
}

/// What is typed filters the rows in every mode but those that ask for a number, a
/// place or an answer.
pub proof fn law_arguments_do_not_filter(mode: Mode)
    ensures
        mode is Main || mode is QuickOpen || mode is Templates || mode is Uninstall || mode
            is UninstallPlugin || mode is Recent || mode is CompareSideA || mode is CompareSideB
            || mode is PluginCascade <==> !mode.spec_bypass_filter(),
        mode.spec_parent() is None <==> mode is Main,
{
}

} // verus!
